//! What an inbound channel message sets off: every rule whose conditions
//! match contributes all of its actions, in rule order. Bot-authored, hidden
//! and threaded messages are never processed.

use vstd::prelude::*;
use crate::actions::{Action, ActionView};
use crate::response::{views_of_actions, ReceptionistResponse, ResponseView};

verus! {

/// A sequence of rules, viewed.
pub open spec fn views_of_rules(v: Seq<ReceptionistResponse>) -> Seq<ResponseView> {
    Seq::new(v.len(), |i: int| v[i]@)
}

/// The actions fired by the first `k` rules: all actions of each triggered
/// rule, none of an untriggered one.
pub open spec fn actions_fired_upto(rs: Seq<ResponseView>, message: Seq<char>, k: int) -> Seq<
    ActionView,
>
    decreases k,
{
    if k <= 0 {
        Seq::empty()
    } else {
        actions_fired_upto(rs, message, k - 1) + (if rs[k - 1].triggers_any(message) {
            rs[k - 1].actions
        } else {
            Seq::empty()
        })
    }
}

/// The actions an inbound message schedules across all given rules.
pub open spec fn spec_actions_to_fire(rs: Seq<ResponseView>, message: Seq<char>) -> Seq<
    ActionView,
> {
    actions_fired_upto(rs, message, rs.len() as int)
}

/// Collects every action to execute for `message`: each rule with at least
/// one matching condition schedules all of its actions, independent of which
/// condition fired. Callers must have validated regex patterns at edit time.
pub fn actions_to_fire(responses: &Vec<ReceptionistResponse>, message: &str) -> (r: Vec<Action>)
    requires
        forall|i: int|
            0 <= i < responses@.len() ==> (#[trigger] views_of_rules(responses@)[i]).match_ready(),
    ensures
        views_of_actions(r@) == spec_actions_to_fire(views_of_rules(responses@), message@),
{
    let ghost rs = views_of_rules(responses@);
    let mut fired: Vec<Action> = Vec::new();
    let mut i: usize = 0;
    while i < responses.len()
        invariant
            i <= responses@.len(),
            rs == views_of_rules(responses@),
            forall|j: int| 0 <= j < rs.len() ==> (#[trigger] rs[j]).match_ready(),
            views_of_actions(fired@) == actions_fired_upto(rs, message@, i as int),
        decreases responses@.len() - i,
    {
        let ghost before = views_of_actions(fired@);
        proof {
            assert(rs[i as int].match_ready());
        }
        if responses[i].check_for_any_match(message) {
            let nacts = responses[i].actions.len();
            let mut k: usize = 0;
            while k < nacts
                invariant
                    i < responses@.len(),
                    nacts == responses@[i as int].actions@.len(),
                    k <= nacts,
                    fired@.len() == before.len() + k,
                    forall|j: int|
                        0 <= j < before.len() ==> #[trigger] views_of_actions(fired@)[j]
                            == before[j],
                    forall|j: int|
                        0 <= j < k ==> views_of_actions(fired@)[before.len() + j] == (
                        #[trigger] responses@[i as int].actions@[j])@,
                decreases nacts - k,
            {
                let ghost prev = fired@;
                fired.push(responses[i].actions[k].clone());
                k = k + 1;
                proof {
                    assert forall|j: int|
                        0 <= j < before.len() implies #[trigger] views_of_actions(fired@)[j]
                        == before[j] by {
                        assert(views_of_actions(prev)[j] == before[j]);
                        assert(fired@[j] == prev[j]);
                    }
                    assert forall|j: int|
                        0 <= j < k implies views_of_actions(fired@)[before.len() + j] == (
                    #[trigger] responses@[i as int].actions@[j])@ by {
                        if j < k - 1 {
                            assert(views_of_actions(prev)[before.len() + j] == responses@[
                                i as int].actions@[j]@);
                            assert(fired@[before.len() + j] == prev[before.len() + j]);
                        } else {
                            assert(fired@[before.len() + j] == fired@.last());
                        }
                    }
                }
            }
            proof {
                assert(views_of_actions(fired@) =~= before + rs[i as int].actions);
            }
        } else {
            proof {
                assert(views_of_actions(fired@) =~= before + Seq::<ActionView>::empty());
            }
        }
        i = i + 1;
    }
    fired
}

/// Like `actions_to_fire`, but first checks that every rule is ready for
/// matching; `None` reports a pattern that does not compile.
pub fn actions_to_fire_checked(responses: &Vec<ReceptionistResponse>, message: &str) -> (r: Option<
    Vec<Action>,
>)
    ensures
        match r {
            Some(fired) => (forall|i: int|
                0 <= i < responses@.len() ==> (#[trigger] views_of_rules(
                    responses@,
                )[i]).match_ready()) && views_of_actions(fired@) == spec_actions_to_fire(
                views_of_rules(responses@),
                message@,
            ),
            None => exists|i: int|
                0 <= i < responses@.len() && !(#[trigger] views_of_rules(
                    responses@,
                )[i]).match_ready(),
        },
{
    let mut i: usize = 0;
    while i < responses.len()
        invariant
            i <= responses@.len(),
            forall|j: int|
                0 <= j < i ==> (#[trigger] views_of_rules(responses@)[j]).match_ready(),
        decreases responses@.len() - i,
    {
        let mut k: usize = 0;
        while k < responses[i].conditions.len()
            invariant
                i < responses@.len(),
                k <= responses@[i as int].conditions@.len(),
                forall|m: int|
                    0 <= m < k ==> (#[trigger] views_of_rules(responses@)[i as int].conditions[
                        m]).match_ready(),
            decreases responses@[i as int].conditions@.len() - k,
        {
            if !responses[i].conditions[k].is_match_ready() {
                proof {
                    assert(!views_of_rules(responses@)[i as int].conditions[
                        k as int].match_ready());
                    assert(!views_of_rules(responses@)[i as int].match_ready());
                }
                return None;
            }
            k = k + 1;
        }
        proof {
            assert(views_of_rules(responses@)[i as int].match_ready());
        }
        i = i + 1;
    }
    Some(actions_to_fire(responses, message))
}

/// Whether an inbound message should be processed at all: bot messages,
/// hidden events and threaded replies are ignored.
pub fn should_process_message(is_bot_message: bool, is_hidden: bool, is_threaded: bool) -> (r:
    bool)
    ensures
        r == (!is_bot_message && !is_hidden && !is_threaded),
{
    !is_bot_message && !is_hidden && !is_threaded
}

} // verus!
