//! The delivery customization function: rename every delivery option of each
//! group whose address carries the configured postal code, appending the
//! configured message to the option's title.

use vstd::prelude::*;
use vstd::string::StringExecFns;
use crate::config::{parse_delivery_config, spec_delivery_config, DeliveryConfiguration};
use crate::model::{
    lemma_ops_view_push, ops_view, payload_view, DeliveryGroup, DeliveryOption, Error,
    FunctionResult, OpView, Operation,
};

verus! {

/// The group ships to the configured postal code: its address and the
/// address's postal code are both present and the code equals `zip` exactly
/// (case-sensitive, no normalization).
pub open spec fn group_matches(g: DeliveryGroup, zip: Seq<char>) -> bool {
    match g.delivery_address {
        Some(address) => match address.zip {
            Some(code) => code@ == zip,
            None => false,
        },
        None => false,
    }
}

/// The renamed title: `existing - message` when the option has a title, and
/// just `message` when it has none.
pub open spec fn computed_title(title: Option<String>, message: Seq<char>) -> Seq<char> {
    match title {
        Some(existing) => existing@ + " - "@ + message,
        None => message,
    }
}

/// The rename operation projected from one matched option.
pub open spec fn rename_op(option: DeliveryOption, message: Seq<char>) -> OpView {
    OpView::Rename {
        delivery_option_handle: option.handle@,
        title: computed_title(option.title, message),
    }
}

/// Every option of a matched group becomes a rename, in the group's order.
pub open spec fn group_ops(g: DeliveryGroup, message: Seq<char>) -> Seq<OpView> {
    g.delivery_options@.map_values(|option: DeliveryOption| rename_op(option, message))
}

/// The whole function result: the matched groups' renames, in snapshot order.
pub open spec fn delivery_ops(zip: Seq<char>, message: Seq<char>, groups: Seq<DeliveryGroup>)
    -> Seq<OpView>
    decreases groups.len(),
{
    if groups.len() == 0 {
        Seq::empty()
    } else {
        delivery_ops(zip, message, groups.drop_last()) + (if group_matches(groups.last(), zip) {
            group_ops(groups.last(), message)
        } else {
            Seq::<OpView>::empty()
        })
    }
}

/// The rule evaluator and operation projector for a loaded configuration.
pub fn run_delivery(config: &DeliveryConfiguration, groups: &Vec<DeliveryGroup>) -> (r:
    FunctionResult)
    ensures
        ops_view(r.operations@) == delivery_ops(config.zip@, config.message@, groups@),
{
    let ghost zipv = config.zip@;
    let ghost msgv = config.message@;
    let mut ops: Vec<Operation> = Vec::new();
    let mut gi: usize = 0;
    proof {
        assert(ops_view(ops@) =~= delivery_ops(zipv, msgv, groups@.take(0)));
    }
    while gi < groups.len()
        invariant
            gi <= groups.len(),
            zipv == config.zip@,
            msgv == config.message@,
            ops_view(ops@) == delivery_ops(zipv, msgv, groups@.take(gi as int)),
        decreases groups.len() - gi,
    {
        let group = &groups[gi];
        let matched: bool = match &group.delivery_address {
            Some(address) => match &address.zip {
                Some(code) => *code == config.zip,
                None => false,
            },
            None => false,
        };
        proof {
            assert(matched == group_matches(groups@[gi as int], zipv));
        }
        if matched {
            proof {
                assert(ops_view(ops@) =~= delivery_ops(zipv, msgv, groups@.take(gi as int))
                    + group_ops(groups@[gi as int], msgv).take(0));
            }
            let mut oi: usize = 0;
            while oi < group.delivery_options.len()
                invariant
                    gi < groups.len(),
                    oi <= group.delivery_options.len(),
                    group == &groups@[gi as int],
                    zipv == config.zip@,
                    msgv == config.message@,
                    ops_view(ops@) == delivery_ops(zipv, msgv, groups@.take(gi as int))
                        + group_ops(groups@[gi as int], msgv).take(oi as int),
                decreases group.delivery_options.len() - oi,
            {
                let option = &group.delivery_options[oi];
                let title: String = match &option.title {
                    Some(existing) => existing.clone().concat(" - ").concat(
                        config.message.as_str(),
                    ),
                    None => config.message.clone(),
                };
                let op = Operation::Rename { delivery_option_handle: option.handle.clone(), title };
                proof {
                    assert(op@ == rename_op(groups@[gi as int].delivery_options@[oi as int], msgv));
                }
                let ghost prev = ops@;
                ops.push(op);
                proof {
                    lemma_ops_view_push(prev, op);
                    assert(ops@ == prev.push(op));
                    assert(group_ops(groups@[gi as int], msgv).take(oi as int + 1)
                        =~= group_ops(groups@[gi as int], msgv).take(oi as int).push(op@));
                    assert(ops_view(ops@) =~= delivery_ops(zipv, msgv, groups@.take(gi as int))
                        + group_ops(groups@[gi as int], msgv).take(oi as int + 1));
                }
                oi = oi + 1;
            }
            proof {
                assert(group_ops(groups@[gi as int], msgv).take(
                    group.delivery_options@.len() as int,
                ) =~= group_ops(groups@[gi as int], msgv));
            }
        }
        proof {
            let taken = groups@.take(gi + 1);
            assert(taken.drop_last() =~= groups@.take(gi as int));
            assert(taken.last() == groups@[gi as int]);
            if !matched {
                assert(ops_view(ops@) =~= delivery_ops(zipv, msgv, taken));
            }
        }
        gi = gi + 1;
    }
    proof {
        assert(groups@.take(groups@.len() as int) =~= groups@);
    }
    FunctionResult { operations: ops }
}

/// Everything the delivery function promises of its result `r`, over the
/// payload (present or absent) and the snapshot's delivery groups.
pub open spec fn delivery_function_post(
    metafield: Option<Seq<char>>,
    groups: Seq<DeliveryGroup>,
    r: Result<FunctionResult, Error>,
) -> bool {
    match metafield {
        None => r matches Ok(fr) && ops_view(fr.operations@) == Seq::<OpView>::empty(),
        Some(payload) => match spec_delivery_config(payload) {
            Some(c) => r matches Ok(fr) && ops_view(fr.operations@) == delivery_ops(
                c.0,
                c.1,
                groups,
            ),
            None => r == Err::<FunctionResult, Error>(Error::ConfigurationMalformed),
        },
    }
}

/// The whole delivery function: load the configuration from the optional
/// payload, evaluate the rule, and project the operations. An absent payload
/// short-circuits to the empty result; a malformed one fails the invocation.
pub fn delivery_function(metafield: Option<&str>, groups: &Vec<DeliveryGroup>) -> (r: Result<
    FunctionResult,
    Error,
>)
    ensures
        delivery_function_post(payload_view(metafield), groups@, r),
{
    let payload = match metafield {
        Some(p) => p,
        None => {
            let empty = FunctionResult { operations: Vec::new() };
            proof {
                assert(ops_view(Seq::<Operation>::empty()) =~= Seq::<OpView>::empty());
            }
            return Ok(empty);
        },
    };
    let config = match parse_delivery_config(payload) {
        Ok(c) => c,
        Err(e) => {
            return Err(e);
        },
    };
    Ok(run_delivery(&config, groups))
}

} // verus!
