//! Emergency stop: flushes nftables directly and stops every domain, best effort, outside
//! the ordered sequence. Restoring the network comes first even if cleanup is incomplete.

use vstd::prelude::*;

use super::sequence::{Steps, NFTABLES_STEP};
use crate::text::owned;

verus! {

pub struct EmergencyReport {
    /// The steps whose stop could not be confirmed.
    pub unconfirmed_steps: Vec<String>,
}

/// The order of the emergency stop: the chain, then the domains in activation order.
pub open spec fn emergency_order() -> Seq<int> {
    seq![1int, 0, 2, 3, 4, 5]
}

/// The name of step `i` when its last stop failed, else nothing.
pub open spec fn unconfirmed_name(before: Steps, after: Steps, i: int) -> Seq<Seq<char>> {
    if after.calls(i).last().1 {
        Seq::empty()
    } else {
        seq![before.name_of(i)]
    }
}

/// The names of the first `n` steps of the emergency order whose stop failed, in that order.
pub open spec fn unconfirmed_prefix(before: Steps, after: Steps, n: nat) -> Seq<Seq<char>>
    decreases n,
{
    if n == 0 {
        Seq::empty()
    } else {
        unconfirmed_prefix(before, after, (n - 1) as nat) + unconfirmed_name(
            before,
            after,
            emergency_order()[n - 1],
        )
    }
}

proof fn lemma_prefix_frame(before: Steps, a1: Steps, a2: Steps, n: nat)
    requires
        n <= 6,
        forall|j: int| 0 <= j < n ==> #[trigger] a1.calls(emergency_order()[j]) == a2.calls(
            emergency_order()[j],
        ),
    ensures
        unconfirmed_prefix(before, a1, n) == unconfirmed_prefix(before, a2, n),
    decreases n,
{
    if n > 0 {
        lemma_prefix_frame(before, a1, a2, (n - 1) as nat);
        assert(a1.calls(emergency_order()[n - 1]) == a2.calls(emergency_order()[n - 1]));
    }
}

/// The chain is flushed, then every domain is stopped, each once; the report names, in that
/// order, the steps whose stop failed.
pub fn emergency_stop(steps: &mut Steps) -> (report: EmergencyReport)
    ensures
        final(steps).reliable() == old(steps).reliable(),
        old(steps).reliable() ==> report.unconfirmed_steps@.len() == 0,
        forall|i: int|
            0 <= i < 6 ==> #[trigger] final(steps).calls(i) == old(steps).calls(i).push(
                (false, final(steps).calls(i).last().1),
            ),
        final(steps).acts@ == old(steps).acts@ + emergency_order(),
        report.unconfirmed_steps@.map_values(|s: String| s@) == unconfirmed_prefix(
            *old(steps),
            *final(steps),
            6,
        ),
        final(steps).same_names(old(steps)),
        forall|i: int| 0 <= i < 6 && i != NFTABLES_STEP ==> !#[trigger] final(steps).on(i),
        final(steps).on(NFTABLES_STEP as int) ==> report.unconfirmed_steps@.len() > 0
            && report.unconfirmed_steps@[0]@ == "nftables"@,
        forall|k: int|
            0 <= k < report.unconfirmed_steps@.len() ==> old(steps).names_a_step(
                (#[trigger] report.unconfirmed_steps@[k])@,
            ),
{
    let mut unconfirmed_steps: Vec<String> = Vec::new();
    let flushed = steps.step_stop(NFTABLES_STEP);
    if flushed.is_err() {
        unconfirmed_steps.push(owned("nftables"));
    }
    proof {
        reveal_with_fuel(unconfirmed_prefix, 2);
        assert(steps.acts@ =~= old(steps).acts@ + emergency_order().subrange(0, 1));
        assert(unconfirmed_steps@.map_values(|s: String| s@) =~= unconfirmed_prefix(*old(steps), *steps, 1));
    }
    assert forall|k: int|
        0 <= k < unconfirmed_steps@.len() implies old(steps).names_a_step(
            (#[trigger] unconfirmed_steps@[k])@,
        ) by {
        assert(unconfirmed_steps@[k]@ == old(steps).name_of(1));
    }
    let order: [usize; 5] = [0, 2, 3, 4, 5];
    let mut n: usize = 0;
    while n < 5
        invariant
            0 <= n <= 5,
            order@ == seq![0usize, 2, 3, 4, 5],
            steps.same_names(old(steps)),
            forall|j: int| 0 <= j < n ==> !#[trigger] steps.on(order@[j] as int),
            steps.on(NFTABLES_STEP as int) ==> unconfirmed_steps@.len() > 0
                && unconfirmed_steps@[0]@ == "nftables"@,
            forall|k: int|
                0 <= k < unconfirmed_steps@.len() ==> old(steps).names_a_step(
                    (#[trigger] unconfirmed_steps@[k])@,
                ),
            forall|j: int|
                0 <= j <= n ==> #[trigger] steps.calls(emergency_order()[j]) == old(steps).calls(
                    emergency_order()[j],
                ).push((false, steps.calls(emergency_order()[j]).last().1)),
            forall|j: int|
                n < j < 6 ==> #[trigger] steps.calls(emergency_order()[j]) == old(steps).calls(
                    emergency_order()[j],
                ),
            unconfirmed_steps@.map_values(|s: String| s@) == unconfirmed_prefix(
                *old(steps),
                *steps,
                (n + 1) as nat,
            ),
            steps.acts@ == old(steps).acts@ + emergency_order().subrange(0, n + 1),
            steps.reliable() == old(steps).reliable(),
            old(steps).reliable() ==> unconfirmed_steps@.len() == 0,
        decreases 5 - n,
    {
        let i = order[n];
        let name = steps.step_name(i);
        let ghost before = unconfirmed_steps@;
        let ghost pre = *steps;
        assert(emergency_order()[n + 1] == i as int);
        let stopped = steps.step_stop(i);
        proof {
            assert forall|j: int| 0 <= j <= n implies #[trigger] steps.calls(emergency_order()[j])
                == pre.calls(emergency_order()[j]) by {
                assert(emergency_order()[j] != i as int);
            }
            lemma_prefix_frame(*old(steps), pre, *steps, (n + 1) as nat);
        }
        if stopped.is_err() {
            unconfirmed_steps.push(owned(name));
            assert forall|k: int|
                0 <= k < unconfirmed_steps@.len() implies old(steps).names_a_step(
                    (#[trigger] unconfirmed_steps@[k])@,
                ) by {
                if k < before.len() {
                    assert(unconfirmed_steps@[k] == before[k]);
                } else {
                    assert(unconfirmed_steps@[k]@ == old(steps).name_of(i as int));
                }
            }
        }
        proof {
            assert(steps.acts@ =~= old(steps).acts@ + emergency_order().subrange(0, n + 2));
            assert(unconfirmed_steps@.map_values(|s: String| s@) =~= unconfirmed_prefix(
                *old(steps),
                *steps,
                (n + 2) as nat,
            ));
        }
        n += 1;
    }
    assert(emergency_order().subrange(0, 6) =~= emergency_order());
    assert forall|i: int|
        0 <= i < 6 implies #[trigger] steps.calls(i) == old(steps).calls(i).push(
        (false, steps.calls(i).last().1),
    ) by {
        if i == 1 {
            assert(steps.calls(emergency_order()[0]) == old(steps).calls(emergency_order()[0]).push(
                (false, steps.calls(emergency_order()[0]).last().1),
            ));
        } else if i == 0 {
            assert(emergency_order()[1] == 0);
            assert(steps.calls(emergency_order()[1]) == old(steps).calls(emergency_order()[1]).push(
                (false, steps.calls(emergency_order()[1]).last().1),
            ));
        } else {
            assert(emergency_order()[i] == i);
            assert(steps.calls(emergency_order()[i]) == old(steps).calls(emergency_order()[i]).push(
                (false, steps.calls(emergency_order()[i]).last().1),
            ));
        }
    }
    assert forall|i: int| 0 <= i < 6 && i != NFTABLES_STEP implies !#[trigger] steps.on(i) by {
        if i == 0 {
            assert(!steps.on(order@[0] as int));
        } else if i == 2 {
            assert(!steps.on(order@[1] as int));
        } else if i == 3 {
            assert(!steps.on(order@[2] as int));
        } else if i == 4 {
            assert(!steps.on(order@[3] as int));
        } else {
            assert(!steps.on(order@[4] as int));
        }
    }
    EmergencyReport { unconfirmed_steps }
}

} // verus!
