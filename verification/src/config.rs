//! Configuration loading: the merchant-supplied payload is a JSON object; its
//! recognized fields are read through serde_json and checked here. A missing
//! payload is a valid state handled by the callers; a present but malformed
//! payload is fatal.

use vstd::prelude::*;
use crate::decimal::{spec_parse_decimal, parse_decimal, Decimal};
use crate::model::Error;

verus! {

/// The string field named `key` of the JSON object written in `s`: present
/// exactly when `s` is a JSON document whose root holds a string under `key`.
pub uninterp spec fn json_str_field(s: Seq<char>, key: Seq<char>) -> Option<Seq<char>>;

/// The numeric field named `key` of the JSON object written in `s`, rendered
/// back as decimal text: present exactly when the root holds a number there.
pub uninterp spec fn json_num_field(s: Seq<char>, key: Seq<char>) -> Option<Seq<char>>;

/// Relies on serde_json::from_str and serde_json::Value::{get, as_str}:
/// parses `s` as JSON and hands back the string under `key` at the root, or
/// None when `s` is not valid JSON, the root is not an object holding `key`,
/// or that member is not a string. The result depends on `s` and `key` alone.
#[verifier::external_body]
fn get_str_field(s: &str, key: &str) -> (r: Option<String>)
    ensures
        match (r, json_str_field(s@, key@)) {
            (Some(v), Some(w)) => v@ == w,
            (None, None) => true,
            _ => false,
        },
{
    let root: serde_json::Value = match serde_json::from_str(s) {
        Ok(v) => v,
        Err(_) => return None,
    };
    match root.get(key) {
        Some(field) => match field.as_str() {
            Some(text) => Some(text.to_string()),
            None => None,
        },
        None => None,
    }
}

/// Relies on serde_json::from_str, serde_json::Value::{get, as_number} and
/// the Display of serde_json::Number: parses `s` as JSON and hands back the
/// number under `key` at the root as its decimal text, or None when there is
/// no number there. The result depends on `s` and `key` alone.
#[verifier::external_body]
fn get_num_field(s: &str, key: &str) -> (r: Option<String>)
    ensures
        match (r, json_num_field(s@, key@)) {
            (Some(v), Some(w)) => v@ == w,
            (None, None) => true,
            _ => false,
        },
{
    let root: serde_json::Value = match serde_json::from_str(s) {
        Ok(v) => v,
        Err(_) => return None,
    };
    match root.get(key) {
        Some(field) => match field.as_number() {
            Some(number) => Some(number.to_string()),
            None => None,
        },
        None => None,
    }
}

/// The delivery function's configuration: rename every delivery option of the
/// groups shipping to `zip`, appending `message` to their titles.
pub struct DeliveryConfiguration {
    pub zip: String,
    pub message: String,
}

/// The payment function's configuration: hide the first payment method whose
/// name contains `payment_method_name`, on carts totalling at least
/// `cart_total`.
pub struct PaymentConfiguration {
    pub payment_method_name: String,
    pub cart_total: Decimal,
}

/// The delivery configuration denoted by the payload `s`: its `zip` and
/// `message` string fields, both required.
pub open spec fn spec_delivery_config(s: Seq<char>) -> Option<(Seq<char>, Seq<char>)> {
    match (json_str_field(s, "zip"@), json_str_field(s, "message"@)) {
        (Some(zip), Some(message)) => Some((zip, message)),
        _ => None,
    }
}

/// The payment configuration denoted by the payload `s`: its
/// `paymentMethodName` string field and its `cartTotal` number field, both
/// required; the number must be a plain decimal that fits the representation.
pub open spec fn spec_payment_config(s: Seq<char>) -> Option<(Seq<char>, Decimal)> {
    match (json_str_field(s, "paymentMethodName"@), json_num_field(s, "cartTotal"@)) {
        (Some(name), Some(total_text)) => match spec_parse_decimal(total_text) {
            Some(total) => Some((name, total)),
            None => None,
        },
        _ => None,
    }
}

/// Loads the delivery configuration from a present payload; a malformed
/// payload fails the invocation rather than silently doing nothing.
pub fn parse_delivery_config(s: &str) -> (r: Result<DeliveryConfiguration, Error>)
    ensures
        match (r, spec_delivery_config(s@)) {
            (Ok(c), Some(p)) => c.zip@ == p.0 && c.message@ == p.1,
            (Err(e), None) => e == Error::ConfigurationMalformed,
            _ => false,
        },
{
    let zip = match get_str_field(s, "zip") {
        Some(z) => z,
        None => {
            return Err(Error::ConfigurationMalformed);
        },
    };
    let message = match get_str_field(s, "message") {
        Some(m) => m,
        None => {
            return Err(Error::ConfigurationMalformed);
        },
    };
    Ok(DeliveryConfiguration { zip, message })
}

/// Loads the payment configuration from a present payload; a malformed
/// payload, including a threshold that is not a plain decimal within range,
/// fails the invocation.
pub fn parse_payment_config(s: &str) -> (r: Result<PaymentConfiguration, Error>)
    ensures
        match (r, spec_payment_config(s@)) {
            (Ok(c), Some(p)) => c.payment_method_name@ == p.0 && c.cart_total == p.1
                && c.cart_total.wf(),
            (Err(e), None) => e == Error::ConfigurationMalformed,
            _ => false,
        },
{
    let name = match get_str_field(s, "paymentMethodName") {
        Some(n) => n,
        None => {
            return Err(Error::ConfigurationMalformed);
        },
    };
    let total_text = match get_num_field(s, "cartTotal") {
        Some(t) => t,
        None => {
            return Err(Error::ConfigurationMalformed);
        },
    };
    let total = match parse_decimal(total_text.as_str()) {
        Some(d) => d,
        None => {
            return Err(Error::ConfigurationMalformed);
        },
    };
    Ok(PaymentConfiguration { payment_method_name: name, cart_total: total })
}

} // verus!
