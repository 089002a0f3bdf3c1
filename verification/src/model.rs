//! The data model: read-only snapshot entities handed in by the host, the
//! operation envelope handed back, and the error taxonomy of an invocation.

use vstd::prelude::*;

verus! {

/// One selectable shipping method offered inside a delivery group.
#[derive(Debug, Clone, PartialEq, Eq)]
pub struct DeliveryOption {
    /// Stable opaque identifier of the option.
    pub handle: String,
    /// Display title; a group may offer untitled options.
    pub title: Option<String>,
}

/// The shipping destination of a delivery group, as far as this logic reads it.
#[derive(Debug, Clone, PartialEq, Eq)]
pub struct DeliveryAddress {
    /// Postal code, when the buyer has provided one.
    pub zip: Option<String>,
}

/// A bundle of cart lines sharing a destination, with its offered options.
#[derive(Debug, Clone, PartialEq, Eq)]
pub struct DeliveryGroup {
    pub delivery_address: Option<DeliveryAddress>,
    pub delivery_options: Vec<DeliveryOption>,
}

/// One payment method offered at checkout.
#[derive(Debug, Clone, PartialEq, Eq)]
pub struct PaymentMethod {
    /// Stable identifier, handed back in a hide operation.
    pub id: String,
    /// Human-readable name, the subject of the configured substring match.
    pub name: String,
}

/// A single customization instruction returned to the host. Exactly one
/// variant is populated per instance: the sum type makes "exactly one"
/// a type-level invariant rather than a runtime convention.
#[derive(Debug, Clone, PartialEq, Eq)]
pub enum Operation {
    Rename { delivery_option_handle: String, title: String },
    Hide { payment_method_id: String },
    /// Representable but never produced by the current rules.
    Move { delivery_option_handle: String, index: u64 },
}

/// Mathematical image of an [`Operation`]: the same variants over sequences.
pub ghost enum OpView {
    Rename { delivery_option_handle: Seq<char>, title: Seq<char> },
    Hide { payment_method_id: Seq<char> },
    Move { delivery_option_handle: Seq<char>, index: int },
}

impl View for Operation {
    type V = OpView;

    open spec fn view(&self) -> OpView {
        match self {
            Operation::Rename { delivery_option_handle, title } => OpView::Rename {
                delivery_option_handle: delivery_option_handle@,
                title: title@,
            },
            Operation::Hide { payment_method_id } => OpView::Hide {
                payment_method_id: payment_method_id@,
            },
            Operation::Move { delivery_option_handle, index } => OpView::Move {
                delivery_option_handle: delivery_option_handle@,
                index: *index as int,
            },
        }
    }
}

/// The image of a whole operation list.
pub open spec fn ops_view(ops: Seq<Operation>) -> Seq<OpView> {
    ops.map_values(|op: Operation| op@)
}

pub proof fn lemma_ops_view_push(ops: Seq<Operation>, op: Operation)
    ensures
        ops_view(ops.push(op)) == ops_view(ops).push(op@),
{
    assert(ops_view(ops.push(op)) =~= ops_view(ops).push(op@));
}

/// The payload view of an optional metafield value.
pub open spec fn payload_view(metafield: Option<&str>) -> Option<Seq<char>> {
    match metafield {
        Some(payload) => Some(payload@),
        None => None,
    }
}

/// The complete ordered result of one invocation; empty is a fully valid
/// outcome meaning "no customization needed".
#[derive(Debug, Clone, PartialEq, Eq)]
pub struct FunctionResult {
    pub operations: Vec<Operation>,
}

/// Fatal conditions of an invocation. Absence of configuration and absence of
/// matches are not errors and never appear here.
#[derive(Debug, Clone, Copy, PartialEq, Eq)]
pub enum Error {
    /// The configuration payload is present but not well-formed: fail loudly
    /// rather than silently behave as "do nothing".
    ConfigurationMalformed,
    /// A numeric field of the snapshot broke the host data contract.
    UnparsableNumericField,
}

} // verus!
