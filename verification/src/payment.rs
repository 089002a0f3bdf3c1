//! The payment customization function: on carts totalling at least the
//! configured threshold, hide the first payment method whose name contains
//! the configured substring.

use vstd::prelude::*;
use crate::config::{parse_payment_config, spec_payment_config, PaymentConfiguration};
use crate::decimal::{parse_decimal, dec_lt, spec_parse_decimal, Decimal};
use crate::model::{ops_view, payload_view, Error, FunctionResult, OpView, Operation, PaymentMethod};
use crate::text::{contains_seq, str_contains};

verus! {

/// The method's name contains the configured substring (case-sensitive,
/// unanchored).
pub open spec fn method_matches(m: PaymentMethod, needle: Seq<char>) -> bool {
    contains_seq(m.name@, needle)
}

/// The first matching method in snapshot order, when one matches at all.
pub open spec fn first_match(methods: Seq<PaymentMethod>, needle: Seq<char>) -> Option<
    PaymentMethod,
>
    decreases methods.len(),
{
    if methods.len() == 0 {
        None
    } else if method_matches(methods[0], needle) {
        Some(methods[0])
    } else {
        first_match(methods.drop_first(), needle)
    }
}

pub proof fn lemma_first_match_none(methods: Seq<PaymentMethod>, needle: Seq<char>)
    requires
        forall|k: int| 0 <= k < methods.len() ==> !method_matches(#[trigger] methods[k], needle),
    ensures
        first_match(methods, needle) is None,
    decreases methods.len(),
{
    if methods.len() > 0 {
        assert(forall|k: int|
            0 <= k < methods.drop_first().len() ==> #[trigger] methods.drop_first()[k]
                == methods[k + 1]);
        lemma_first_match_none(methods.drop_first(), needle);
    }
}

pub proof fn lemma_first_match_found(methods: Seq<PaymentMethod>, needle: Seq<char>, i: int)
    requires
        0 <= i < methods.len(),
        method_matches(methods[i], needle),
        forall|k: int| 0 <= k < i ==> !method_matches(#[trigger] methods[k], needle),
    ensures
        first_match(methods, needle) == Some(methods[i]),
    decreases i,
{
    if i > 0 {
        assert(forall|k: int|
            0 <= k < methods.drop_first().len() ==> #[trigger] methods.drop_first()[k]
                == methods[k + 1]);
        lemma_first_match_found(methods.drop_first(), needle, i - 1);
    }
}

/// The whole function result for a parsed cart total: empty below the
/// threshold, otherwise at most the one hide operation for the first match.
pub open spec fn payment_ops(
    total: Decimal,
    needle: Seq<char>,
    threshold: Decimal,
    methods: Seq<PaymentMethod>,
) -> Seq<OpView> {
    if total.spec_lt(threshold) {
        Seq::empty()
    } else {
        match first_match(methods, needle) {
            Some(m) => seq![(OpView::Hide { payment_method_id: m.id@ })],
            None => Seq::empty(),
        }
    }
}

/// The rule evaluator and operation projector for a loaded configuration: the
/// cart's total amount text is parsed exactly, and an unparsable total fails
/// the invocation as a broken host contract.
pub fn run_payment(
    config: &PaymentConfiguration,
    cart_total: &str,
    methods: &Vec<PaymentMethod>,
) -> (r: Result<FunctionResult, Error>)
    requires
        config.cart_total.wf(),
    ensures
        match spec_parse_decimal(cart_total@) {
            Some(total) => r matches Ok(fr) && ops_view(fr.operations@) == payment_ops(
                total,
                config.payment_method_name@,
                config.cart_total,
                methods@,
            ),
            None => r == Err::<FunctionResult, Error>(Error::UnparsableNumericField),
        },
{
    let total = match parse_decimal(cart_total) {
        Some(t) => t,
        None => {
            return Err(Error::UnparsableNumericField);
        },
    };
    if dec_lt(&total, &config.cart_total) {
        proof {
            assert(ops_view(Seq::<Operation>::empty()) =~= Seq::<OpView>::empty());
        }
        return Ok(FunctionResult { operations: Vec::new() });
    }
    let ghost needle = config.payment_method_name@;
    let mut i: usize = 0;
    while i < methods.len()
        invariant
            i <= methods.len(),
            needle == config.payment_method_name@,
            spec_parse_decimal(cart_total@) == Some(total),
            !total.spec_lt(config.cart_total),
            forall|k: int| 0 <= k < i ==> !method_matches(#[trigger] methods@[k], needle),
        decreases methods.len() - i,
    {
        let method = &methods[i];
        if str_contains(method.name.as_str(), config.payment_method_name.as_str()) {
            proof {
                lemma_first_match_found(methods@, needle, i as int);
            }
            let op = Operation::Hide { payment_method_id: method.id.clone() };
            let mut ops: Vec<Operation> = Vec::new();
            ops.push(op);
            proof {
                assert(ops_view(ops@) =~= seq![
                    (OpView::Hide { payment_method_id: methods@[i as int].id@ }),
                ]);
            }
            return Ok(FunctionResult { operations: ops });
        }
        i = i + 1;
    }
    proof {
        lemma_first_match_none(methods@, needle);
        assert(ops_view(Seq::<Operation>::empty()) =~= Seq::<OpView>::empty());
    }
    Ok(FunctionResult { operations: Vec::new() })
}

/// Everything the payment function promises of its result `r`, over the
/// payload (present or absent), the cart's total amount text, and the
/// snapshot's payment methods.
pub open spec fn payment_function_post(
    metafield: Option<Seq<char>>,
    cart_total: Seq<char>,
    methods: Seq<PaymentMethod>,
    r: Result<FunctionResult, Error>,
) -> bool {
    match metafield {
        None => r matches Ok(fr) && ops_view(fr.operations@) == Seq::<OpView>::empty(),
        Some(payload) => match spec_payment_config(payload) {
            None => r == Err::<FunctionResult, Error>(Error::ConfigurationMalformed),
            Some(c) => match spec_parse_decimal(cart_total) {
                Some(total) => r matches Ok(fr) && ops_view(fr.operations@) == payment_ops(
                    total,
                    c.0,
                    c.1,
                    methods,
                ),
                None => r == Err::<FunctionResult, Error>(Error::UnparsableNumericField),
            },
        },
    }
}

/// The whole payment function: load the configuration from the optional
/// payload, evaluate the rule, and project the operation. An absent payload
/// short-circuits to the empty result; a malformed one fails the invocation,
/// as does an unparsable cart total.
pub fn payment_function(
    metafield: Option<&str>,
    cart_total: &str,
    methods: &Vec<PaymentMethod>,
) -> (r: Result<FunctionResult, Error>)
    ensures
        payment_function_post(
            payload_view(metafield),
            cart_total@,
            methods@,
            r,
        ),
{
    let payload = match metafield {
        Some(p) => p,
        None => {
            proof {
                assert(ops_view(Seq::<Operation>::empty()) =~= Seq::<OpView>::empty());
            }
            return Ok(FunctionResult { operations: Vec::new() });
        },
    };
    let config = match parse_payment_config(payload) {
        Ok(c) => c,
        Err(e) => {
            return Err(e);
        },
    };
    run_payment(&config, cart_total, methods)
}

} // verus!
