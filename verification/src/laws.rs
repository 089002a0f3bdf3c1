//! The laws of the two functions, stated and proved over the same spec
//! functions their contracts use.

use vstd::prelude::*;
use crate::decimal::Decimal;
use crate::delivery::{
    computed_title, delivery_function_post, delivery_ops, group_matches, group_ops, rename_op,
};
use crate::model::{ops_view, DeliveryGroup, Error, FunctionResult, OpView, PaymentMethod};
use crate::payment::{
    lemma_first_match_found, lemma_first_match_none, method_matches,
    payment_function_post, payment_ops,
};

verus! {

/// Two invocation results are observably the same: equal operation views on
/// success, the same error on failure.
pub open spec fn result_equiv(
    r1: Result<FunctionResult, Error>,
    r2: Result<FunctionResult, Error>,
) -> bool {
    match (r1, r2) {
        (Ok(a), Ok(b)) => ops_view(a.operations@) == ops_view(b.operations@),
        (Err(a), Err(b)) => a == b,
        _ => false,
    }
}

/// An absent configuration payload short-circuits both functions to the empty
/// operation sequence.
pub proof fn lemma_absent_configuration_is_empty(
    groups: Seq<DeliveryGroup>,
    cart_total: Seq<char>,
    methods: Seq<PaymentMethod>,
    rd: Result<FunctionResult, Error>,
    rp: Result<FunctionResult, Error>,
)
    requires
        delivery_function_post(None, groups, rd),
        payment_function_post(None, cart_total, methods, rp),
    ensures
        rd matches Ok(fr) && ops_view(fr.operations@) == Seq::<OpView>::empty(),
        rp matches Ok(fr) && ops_view(fr.operations@) == Seq::<OpView>::empty(),
{
}

/// A delivery group whose address is absent, or whose address carries no
/// postal code, never matches: it contributes nothing, under any
/// configuration.
pub proof fn lemma_no_postal_code_no_match(
    g: DeliveryGroup,
    zip: Seq<char>,
    message: Seq<char>,
    groups: Seq<DeliveryGroup>,
)
    requires
        match g.delivery_address {
            Some(address) => address.zip is None,
            None => true,
        },
    ensures
        !group_matches(g, zip),
        delivery_ops(zip, message, groups.push(g)) == delivery_ops(zip, message, groups),
{
    assert(groups.push(g).drop_last() =~= groups);
    assert(groups.push(g).last() == g);
    assert(delivery_ops(zip, message, groups.push(g)) =~= delivery_ops(zip, message, groups));
}

/// Every option of a group whose postal code equals the configured zip is
/// renamed exactly once, in the group's own order: the existing title with
/// ` - message` appended, or the bare message for an untitled option.
pub proof fn lemma_matching_group_renames_each_option(
    g: DeliveryGroup,
    zip: Seq<char>,
    message: Seq<char>,
    groups: Seq<DeliveryGroup>,
)
    requires
        group_matches(g, zip),
    ensures
        delivery_ops(zip, message, groups.push(g)) == delivery_ops(zip, message, groups)
            + group_ops(g, message),
        group_ops(g, message).len() == g.delivery_options@.len(),
        forall|i: int|
            0 <= i < g.delivery_options@.len() ==> group_ops(g, message)[i] == (OpView::Rename {
                delivery_option_handle: g.delivery_options@[i].handle@,
                title: computed_title(g.delivery_options@[i].title, message),
            }),
{
    assert(groups.push(g).drop_last() =~= groups);
    assert(groups.push(g).last() == g);
    assert(forall|i: int|
        0 <= i < g.delivery_options@.len() ==> group_ops(g, message)[i] == rename_op(
            #[trigger] g.delivery_options@[i],
            message,
        ));
}

/// A cart total strictly below the configured threshold yields no operation,
/// whatever payment methods are present.
pub proof fn lemma_below_threshold_is_empty(
    total: Decimal,
    needle: Seq<char>,
    threshold: Decimal,
    methods: Seq<PaymentMethod>,
)
    requires
        total.spec_lt(threshold),
    ensures
        payment_ops(total, needle, threshold, methods) == Seq::<OpView>::empty(),
{
}

/// At or above the threshold the result holds at most one operation: the hide
/// of the first method (in snapshot order) whose name contains the configured
/// substring, and nothing when no method matches.
pub proof fn lemma_at_or_above_threshold_hides_first_match(
    total: Decimal,
    needle: Seq<char>,
    threshold: Decimal,
    methods: Seq<PaymentMethod>,
)
    requires
        !total.spec_lt(threshold),
    ensures
        payment_ops(total, needle, threshold, methods).len() <= 1,
        (forall|k: int| 0 <= k < methods.len() ==> !method_matches(#[trigger] methods[k], needle))
            ==> payment_ops(total, needle, threshold, methods) == Seq::<OpView>::empty(),
        forall|i: int|
            (0 <= i < methods.len() && method_matches(#[trigger] methods[i], needle) && (forall|
                k: int,
            | 0 <= k < i ==> !method_matches(#[trigger] methods[k], needle))) ==> payment_ops(
                total,
                needle,
                threshold,
                methods,
            ) == seq![(OpView::Hide { payment_method_id: methods[i].id@ })],
{
    if forall|k: int| 0 <= k < methods.len() ==> !method_matches(#[trigger] methods[k], needle) {
        lemma_first_match_none(methods, needle);
    }
    assert forall|i: int|
        (0 <= i < methods.len() && method_matches(#[trigger] methods[i], needle) && (forall|
            k: int,
        | 0 <= k < i ==> !method_matches(#[trigger] methods[k], needle))) implies payment_ops(
        total,
        needle,
        threshold,
        methods,
    ) == seq![(OpView::Hide { payment_method_id: methods[i].id@ })] by {
        lemma_first_match_found(methods, needle, i);
    }
}

/// Invoking the delivery function twice with identical input yields the same
/// observable output: its contract admits exactly one result, so there is no
/// hidden state.
pub proof fn lemma_delivery_deterministic(
    metafield: Option<Seq<char>>,
    groups: Seq<DeliveryGroup>,
    r1: Result<FunctionResult, Error>,
    r2: Result<FunctionResult, Error>,
)
    requires
        delivery_function_post(metafield, groups, r1),
        delivery_function_post(metafield, groups, r2),
    ensures
        result_equiv(r1, r2),
{
}

/// Invoking the payment function twice with identical input yields the same
/// observable output.
pub proof fn lemma_payment_deterministic(
    metafield: Option<Seq<char>>,
    cart_total: Seq<char>,
    methods: Seq<PaymentMethod>,
    r1: Result<FunctionResult, Error>,
    r2: Result<FunctionResult, Error>,
)
    requires
        payment_function_post(metafield, cart_total, methods, r1),
        payment_function_post(metafield, cart_total, methods, r2),
    ensures
        result_equiv(r1, r2),
{
}

} // verus!
