//! Checkout customization functions: pure decision logic that inspects a cart
//! snapshot together with a merchant-supplied configuration payload and emits
//! the ordered sequence of checkout operations (rename, hide, move) that the
//! host should apply.

pub mod config;
pub mod decimal;
pub mod delivery;
pub mod laws;
pub mod model;
pub mod payment;
pub mod text;
