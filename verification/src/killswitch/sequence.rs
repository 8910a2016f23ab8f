//! Activation and deactivation sequences: CA → nftables → PolarProxy → attribution →
//! capture → keylog, in this order to activate and in reverse order to deactivate.

use vstd::prelude::*;

use super::nftables::NftablesBackend;
use super::subsystem::Subsystem;
use super::KillSwitchError;
use crate::text::owned;

verus! {

/// Number of attempts at stopping one step during deactivation.
pub const STEP_MAX_ATTEMPTS: u32 = 3;

/// Index of the nftables step.
pub const NFTABLES_STEP: usize = 1;

/// The six steps of the sequence, in activation order.
pub struct Steps {
    pub ca: Box<dyn Subsystem>,
    pub nftables: Box<dyn NftablesBackend>,
    pub polarproxy: Box<dyn Subsystem>,
    pub attribution: Box<dyn Subsystem>,
    pub capture: Box<dyn Subsystem>,
    pub keylog: Box<dyn Subsystem>,
    /// The steps started or stopped, in order.
    pub acts: Ghost<Seq<int>>,
    /// The message of the error of the last start or stop, if it failed.
    pub last_error: Ghost<Option<Seq<char>>>,
}

/// The message of an outcome's error, if any.
pub open spec fn error_message(r: Result<(), KillSwitchError>) -> Option<Seq<char>> {
    match r {
        Ok(_) => None,
        Err(e) => Some(e.spec_message()),
    }
}

impl Steps {
    /// Whether step `i` is running (for nftables: whether the chain is present).
    pub open spec fn on(&self, i: int) -> bool {
        if i == 0 {
            self.ca.spec_active()
        } else if i == 1 {
            self.nftables.spec_applied()
        } else if i == 2 {
            self.polarproxy.spec_active()
        } else if i == 3 {
            self.attribution.spec_active()
        } else if i == 4 {
            self.capture.spec_active()
        } else {
            self.keylog.spec_active()
        }
    }

    /// The starts and stops made on step `i`, each with whether it succeeded.
    pub open spec fn calls(&self, i: int) -> Seq<(bool, bool)> {
        if i == 0 {
            self.ca.spec_calls()
        } else if i == 1 {
            self.nftables.spec_calls()
        } else if i == 2 {
            self.polarproxy.spec_calls()
        } else if i == 3 {
            self.attribution.spec_calls()
        } else if i == 4 {
            self.capture.spec_calls()
        } else {
            self.keylog.spec_calls()
        }
    }

    /// The name of step `i`.
    pub open spec fn name_of(&self, i: int) -> Seq<char> {
        if i == 0 {
            self.ca.spec_name()
        } else if i == 1 {
            "nftables"@
        } else if i == 2 {
            self.polarproxy.spec_name()
        } else if i == 3 {
            self.attribution.spec_name()
        } else if i == 4 {
            self.capture.spec_name()
        } else {
            self.keylog.spec_name()
        }
    }

    /// `n` is the name of one of the six steps.
    pub open spec fn names_a_step(&self, n: Seq<char>) -> bool {
        exists|i: int| 0 <= i < 6 && #[trigger] self.name_of(i) == n
    }

    pub open spec fn same_names(&self, other: &Steps) -> bool {
        forall|i: int| 0 <= i < 6 ==> #[trigger] self.name_of(i) == other.name_of(i)
    }

    /// Every step's starts and stops succeed.
    pub open spec fn reliable(&self) -> bool {
        &&& self.ca.spec_reliable()
        &&& self.nftables.spec_reliable()
        &&& self.polarproxy.spec_reliable()
        &&& self.attribution.spec_reliable()
        &&& self.capture.spec_reliable()
        &&& self.keylog.spec_reliable()
    }

    /// Every step is stopped and the chain is absent.
    pub open spec fn all_off(&self) -> bool {
        forall|i: int| 0 <= i < 6 ==> !#[trigger] self.on(i)
    }

    pub fn step_name(&self, i: usize) -> (n: &'static str)
        requires
            i < 6,
        ensures
            n@ == self.name_of(i as int),
    {
        if i == 0 {
            self.ca.name()
        } else if i == 1 {
            "nftables"
        } else if i == 2 {
            self.polarproxy.name()
        } else if i == 3 {
            self.attribution.name()
        } else if i == 4 {
            self.capture.name()
        } else {
            self.keylog.name()
        }
    }

    /// Whether step `i` is running (for nftables: whether the chain is present).
    pub fn step_active(&self, i: usize) -> (b: bool)
        requires
            i < 6,
        ensures
            b == self.on(i as int),
    {
        if i == 0 {
            self.ca.is_active()
        } else if i == 1 {
            self.nftables.is_applied()
        } else if i == 2 {
            self.polarproxy.is_active()
        } else if i == 3 {
            self.attribution.is_active()
        } else if i == 4 {
            self.capture.is_active()
        } else {
            self.keylog.is_active()
        }
    }

    /// Starts step `i`; the other steps are left as they are.
    pub fn step_start(&mut self, i: usize) -> (r: Result<(), KillSwitchError>)
        requires
            i < 6,
        ensures
            final(self).same_names(old(self)),
            forall|j: int| 0 <= j < 6 && j != i ==> #[trigger] final(self).on(j) == old(self).on(j),
            forall|j: int| 0 <= j < 6 && j != i ==> #[trigger] final(self).calls(j) == old(self).calls(j),
            final(self).calls(i as int) == old(self).calls(i as int).push((true, r is Ok)),
            final(self).acts@ == old(self).acts@.push(i as int),
            final(self).last_error@ == error_message(r),
            final(self).reliable() == old(self).reliable(),
            old(self).reliable() ==> r is Ok,
            r is Ok ==> final(self).on(i as int),
            r is Err && i != NFTABLES_STEP ==> final(self).on(i as int) == old(self).on(i as int),
    {
        proof {
            self.acts@ = self.acts@.push(i as int);
        }
        let r = if i == 0 {
            self.ca.start()
        } else if i == 1 {
            self.nftables.apply()
        } else if i == 2 {
            self.polarproxy.start()
        } else if i == 3 {
            self.attribution.start()
        } else if i == 4 {
            self.capture.start()
        } else {
            self.keylog.start()
        };
        proof {
            self.last_error@ = error_message(r);
        }
        r
    }

    /// Stops step `i`; the other steps are left as they are.
    pub fn step_stop(&mut self, i: usize) -> (r: Result<(), KillSwitchError>)
        requires
            i < 6,
        ensures
            final(self).same_names(old(self)),
            forall|j: int| 0 <= j < 6 && j != i ==> #[trigger] final(self).on(j) == old(self).on(j),
            forall|j: int| 0 <= j < 6 && j != i ==> #[trigger] final(self).calls(j) == old(self).calls(j),
            final(self).calls(i as int) == old(self).calls(i as int).push((false, r is Ok)),
            final(self).acts@ == old(self).acts@.push(i as int),
            final(self).last_error@ == error_message(r),
            final(self).reliable() == old(self).reliable(),
            old(self).reliable() ==> r is Ok,
            i != NFTABLES_STEP ==> !final(self).on(i as int),
            r is Ok ==> !final(self).on(i as int),
    {
        proof {
            self.acts@ = self.acts@.push(i as int);
        }
        let r = if i == 0 {
            self.ca.stop()
        } else if i == 1 {
            self.nftables.flush()
        } else if i == 2 {
            self.polarproxy.stop()
        } else if i == 3 {
            self.attribution.stop()
        } else if i == 4 {
            self.capture.stop()
        } else {
            self.keylog.stop()
        };
        proof {
            self.last_error@ = error_message(r);
        }
        r
    }
}

/// After a failed activation: the steps before `k` run, the steps after `k` are untouched,
/// step `k` kept its state (but the chain, which a failed apply may leave half-written), and
/// the error names step `k`.
pub open spec fn stopped_at(
    before: Steps,
    after: Steps,
    k: int,
    r: Result<(), KillSwitchError>,
) -> bool {
    &&& 0 <= k < 6
    &&& forall|j: int| 0 <= j < k ==> #[trigger] after.on(j)
    &&& forall|j: int| k < j < 6 ==> #[trigger] after.on(j) == before.on(j)
    &&& k != NFTABLES_STEP ==> after.on(k) == before.on(k)
    &&& match r {
        Err(KillSwitchError::ActivationFailed { step, reason: _ }) => step@ == before.name_of(k),
        _ => false,
    }
}

/// The first `n` steps, in activation order.
pub open spec fn first_steps(n: nat) -> Seq<int> {
    Seq::new(n, |j: int| j)
}

/// Every step was started once, successfully, in activation order.
pub open spec fn started_all(before: Steps, after: Steps) -> bool {
    &&& forall|j: int| 0 <= j < 6 ==> #[trigger] after.calls(j) == before.calls(j).push((true, true))
    &&& after.acts@ == before.acts@ + first_steps(6)
}

/// The steps before `k` were started successfully, in order, step `k` failed to start, and
/// the steps after `k` were not touched.
pub open spec fn start_failed_at(before: Steps, after: Steps, k: int) -> bool {
    &&& 0 <= k < 6
    &&& after.acts@ == before.acts@ + first_steps((k + 1) as nat)
    &&& forall|j: int| 0 <= j < k ==> #[trigger] after.calls(j) == before.calls(j).push((true, true))
    &&& after.calls(k) == before.calls(k).push((true, false))
    &&& forall|j: int| k < j < 6 ==> #[trigger] after.calls(j) == before.calls(j)
}

/// Activation: starts the steps in order and stops at the first failure, reporting the step
/// and, as the reason, the message of its error.
pub fn activate(steps: &mut Steps) -> (r: Result<(), KillSwitchError>)
    ensures
        final(steps).reliable() == old(steps).reliable(),
        old(steps).reliable() ==> r is Ok,
        r matches Err(KillSwitchError::ActivationFailed { step: _, reason }) ==> final(steps).last_error@
            == Some(reason@),
        final(steps).same_names(old(steps)),
        r is Ok ==> forall|i: int| 0 <= i < 6 ==> #[trigger] final(steps).on(i),
        r is Ok ==> started_all(*old(steps), *final(steps)),
        r is Err ==> exists|k: int|
            #[trigger] stopped_at(*old(steps), *final(steps), k, r) && start_failed_at(
                *old(steps),
                *final(steps),
                k,
            ),
{
    let mut i: usize = 0;
    while i < 6
        invariant
            0 <= i <= 6,
            steps.same_names(old(steps)),
            forall|j: int| 0 <= j < i ==> #[trigger] steps.on(j),
            forall|j: int| i <= j < 6 ==> #[trigger] steps.on(j) == old(steps).on(j),
            forall|j: int| 0 <= j < i ==> #[trigger] steps.calls(j) == old(steps).calls(j).push(
                (true, true),
            ),
            forall|j: int| i <= j < 6 ==> #[trigger] steps.calls(j) == old(steps).calls(j),
            steps.acts@ == old(steps).acts@ + first_steps(i as nat),
            steps.reliable() == old(steps).reliable(),
        decreases 6 - i,
    {
        let name = steps.step_name(i);
        assert(steps.name_of(i as int) == old(steps).name_of(i as int));
        match steps.step_start(i) {
            Ok(()) => {
                assert(steps.acts@ =~= old(steps).acts@ + first_steps((i + 1) as nat));
            },
            Err(error) => {
                assert(steps.acts@ =~= old(steps).acts@ + first_steps((i + 1) as nat));
                let e = KillSwitchError::ActivationFailed {
                    step: owned(name),
                    reason: error.message(),
                };
                let r: Result<(), KillSwitchError> = Err(e);
                assert(stopped_at(*old(steps), *steps, i as int, r));
                assert(start_failed_at(*old(steps), *steps, i as int));
                return r;
            },
        }
        i += 1;
    }
    Ok(())
}

pub struct DeactivationReport {
    /// The steps whose every stop attempt failed, with the last error, in deactivation order.
    pub failed_steps: Vec<(String, String)>,
}

/// `n` failed stops.
pub open spec fn failed_stops(n: nat) -> Seq<(bool, bool)> {
    Seq::new(n, |k: int| (false, false))
}

/// Step `i` was stopped after fewer than `STEP_MAX_ATTEMPTS` failed stops.
pub open spec fn stopped_after_retries(before: Steps, after: Steps, i: int) -> bool {
    exists|m: nat|
        m < STEP_MAX_ATTEMPTS && #[trigger] after.calls(i) == before.calls(i) + failed_stops(m).push(
            (false, true),
        )
}

/// Every one of the `STEP_MAX_ATTEMPTS` stops of step `i` failed.
pub open spec fn gave_up(before: Steps, after: Steps, i: int) -> bool {
    after.calls(i) == before.calls(i) + failed_stops(STEP_MAX_ATTEMPTS as nat)
}

/// The stop attempts made on step `i` between `before` and `after`, as acts on `i`.
pub open spec fn stop_attempts(before: Steps, after: Steps, i: int) -> Seq<int> {
    Seq::new((after.calls(i).len() - before.calls(i).len()) as nat, |_k: int| i)
}

/// The acts of a deactivation from the last step down to step `i`: the stop attempts of each
/// step, in reverse activation order.
pub open spec fn stops_down_to(before: Steps, after: Steps, i: int) -> Seq<int>
    decreases 6 - i,
{
    if i >= 6 {
        Seq::empty()
    } else {
        stops_down_to(before, after, i + 1) + stop_attempts(before, after, i)
    }
}

proof fn lemma_stops_frame(before: Steps, a: Steps, b: Steps, i: int)
    requires
        0 <= i <= 6,
        forall|j: int| i <= j < 6 ==> #[trigger] a.calls(j) == b.calls(j),
    ensures
        stops_down_to(before, a, i) == stops_down_to(before, b, i),
    decreases 6 - i,
{
    if i < 6 {
        lemma_stops_frame(before, a, b, i + 1);
        assert(a.calls(i) == b.calls(i));
    }
}

/// Tries `stop` on step `i` up to `STEP_MAX_ATTEMPTS` times, stopping at the first success;
/// the last error if all fail.
pub fn stop_with_retry(steps: &mut Steps, i: usize) -> (r: Result<(), String>)
    requires
        i < 6,
    ensures
        final(steps).same_names(old(steps)),
        forall|j: int| 0 <= j < 6 && j != i ==> #[trigger] final(steps).on(j) == old(steps).on(j),
        forall|j: int| 0 <= j < 6 && j != i ==> #[trigger] final(steps).calls(j) == old(steps).calls(j),
        i != NFTABLES_STEP ==> !final(steps).on(i as int),
        r is Ok ==> !final(steps).on(i as int),
        r is Ok ==> stopped_after_retries(*old(steps), *final(steps), i as int),
        r is Err ==> gave_up(*old(steps), *final(steps), i as int),
        final(steps).acts@ == old(steps).acts@ + stop_attempts(*old(steps), *final(steps), i as int),
        final(steps).reliable() == old(steps).reliable(),
        old(steps).reliable() ==> r is Ok,
{
    let mut last_error = String::new();
    let mut attempt: u32 = 1;
    assert(old(steps).calls(i as int) + failed_stops(0) =~= old(steps).calls(i as int));
    while attempt <= STEP_MAX_ATTEMPTS
        invariant
            1 <= attempt <= STEP_MAX_ATTEMPTS + 1,
            i < 6,
            steps.same_names(old(steps)),
            forall|j: int| 0 <= j < 6 && j != i ==> #[trigger] steps.on(j) == old(steps).on(j),
            forall|j: int| 0 <= j < 6 && j != i ==> #[trigger] steps.calls(j) == old(steps).calls(j),
            steps.calls(i as int) == old(steps).calls(i as int) + failed_stops((attempt - 1) as nat),
            attempt > 1 && i != NFTABLES_STEP ==> !steps.on(i as int),
            steps.acts@ == old(steps).acts@ + Seq::new((attempt - 1) as nat, |_k: int| i as int),
            steps.reliable() == old(steps).reliable(),
            old(steps).reliable() ==> attempt == 1,
        decreases STEP_MAX_ATTEMPTS + 1 - attempt,
    {
        let ghost before = steps.calls(i as int);
        match steps.step_stop(i) {
            Ok(()) => {
                assert(steps.calls(i as int) == old(steps).calls(i as int) + failed_stops(
                    (attempt - 1) as nat,
                ).push((false, true)));
                assert(steps.acts@ =~= old(steps).acts@ + stop_attempts(*old(steps), *steps, i as int));
                return Ok(());
            },
            Err(error) => {
                last_error = error.message();
                assert(steps.calls(i as int) =~= old(steps).calls(i as int) + failed_stops(
                    attempt as nat,
                ));
                assert(steps.acts@ =~= old(steps).acts@ + Seq::new(attempt as nat, |_k: int| i as int));
            },
        }
        attempt += 1;
    }
    assert(steps.acts@ =~= old(steps).acts@ + stop_attempts(*old(steps), *steps, i as int));
    Err(last_error)
}

/// Whether a report lists a step of the given name.
pub open spec fn lists_step(failed: Seq<(String, String)>, name: Seq<char>) -> bool {
    exists|k: int| 0 <= k < failed.len() && (#[trigger] failed[k]).0@ == name
}

/// `idx` are the steps that gave up, in deactivation order (highest first), and `failed`
/// names them in that order.
pub open spec fn gave_up_in_order(before: Steps, after: Steps, idx: Seq<int>, failed: Seq<(String, String)>) -> bool {
    &&& idx.len() == failed.len()
    &&& forall|k: int|
        0 <= k < idx.len() ==> 0 <= #[trigger] idx[k] < 6 && failed[k].0@ == before.name_of(idx[k])
            && gave_up(before, after, idx[k])
    &&& forall|k1: int, k2: int| 0 <= k1 < k2 < idx.len() ==> #[trigger] idx[k1] > #[trigger] idx[k2]
    &&& forall|i: int| 0 <= i < 6 && #[trigger] gave_up(before, after, i) ==> idx.contains(i)
}

/// Deactivation in reverse order, best effort: each step is retried, a step that keeps
/// failing is reported and the sequence goes on.
pub fn deactivate(steps: &mut Steps) -> (report: DeactivationReport)
    ensures
        final(steps).same_names(old(steps)),
        forall|i: int| 0 <= i < 6 && i != NFTABLES_STEP ==> !#[trigger] final(steps).on(i),
        final(steps).on(NFTABLES_STEP as int) ==> lists_step(report.failed_steps@, "nftables"@),
        forall|k: int|
            0 <= k < report.failed_steps@.len() ==> old(steps).names_a_step(
                (#[trigger] report.failed_steps@[k]).0@,
            ),
        forall|i: int|
            0 <= i < 6 ==> stopped_after_retries(*old(steps), *final(steps), i) || #[trigger] gave_up(
                *old(steps),
                *final(steps),
                i,
            ),
        exists|idx: Seq<int>| #[trigger] gave_up_in_order(*old(steps), *final(steps), idx, report.failed_steps@),
        final(steps).acts@ == old(steps).acts@ + stops_down_to(*old(steps), *final(steps), 0),
        final(steps).reliable() == old(steps).reliable(),
        old(steps).reliable() ==> report.failed_steps@.len() == 0 && forall|i: int|
            0 <= i < 6 ==> !#[trigger] gave_up(*old(steps), *final(steps), i),
{
    let mut failed_steps: Vec<(String, String)> = Vec::new();
    let ghost mut failed_idx: Seq<int> = Seq::empty();
    let mut i: usize = 6;
    while i > 0
        invariant
            0 <= i <= 6,
            steps.same_names(old(steps)),
            forall|j: int| 0 <= j < i ==> #[trigger] steps.on(j) == old(steps).on(j),
            forall|j: int| i <= j < 6 && j != NFTABLES_STEP ==> !#[trigger] steps.on(j),
            failed_idx.len() == failed_steps@.len(),
            forall|k: int|
                0 <= k < failed_idx.len() ==> 0 <= #[trigger] failed_idx[k] < 6
                    && failed_steps@[k].0@ == old(steps).name_of(failed_idx[k]),
            i <= NFTABLES_STEP && steps.on(NFTABLES_STEP as int) ==> failed_idx.contains(
                NFTABLES_STEP as int,
            ),
            forall|j: int| 0 <= j < i ==> #[trigger] steps.calls(j) == old(steps).calls(j),
            forall|j: int|
                i <= j < 6 ==> stopped_after_retries(*old(steps), *steps, j) || #[trigger] gave_up(
                    *old(steps),
                    *steps,
                    j,
                ),
            forall|m: int| 0 <= m < failed_idx.len() ==> i <= #[trigger] failed_idx[m] < 6,
            forall|m: int| 0 <= m < failed_idx.len() ==> gave_up(*old(steps), *steps, #[trigger] failed_idx[m]),
            forall|k1: int, k2: int|
                0 <= k1 < k2 < failed_idx.len() ==> #[trigger] failed_idx[k1] > #[trigger] failed_idx[k2],
            forall|j: int| i <= j < 6 && #[trigger] gave_up(*old(steps), *steps, j) ==> failed_idx.contains(j),
            steps.acts@ == old(steps).acts@ + stops_down_to(*old(steps), *steps, i as int),
            steps.reliable() == old(steps).reliable(),
            old(steps).reliable() ==> failed_idx.len() == 0,
        decreases i,
    {
        let k = i - 1;
        let name = steps.step_name(k);
        assert(steps.name_of(k as int) == old(steps).name_of(k as int));
        let ghost before_idx = failed_idx;
        let ghost pre = *steps;
        let res = stop_with_retry(steps, k);
        proof {
            assert(pre.calls(k as int) == old(steps).calls(k as int));
            lemma_stops_frame(*old(steps), pre, *steps, i as int);
            assert(stop_attempts(pre, *steps, k as int) =~= stop_attempts(*old(steps), *steps, k as int));
            assert(steps.acts@ =~= old(steps).acts@ + stops_down_to(*old(steps), *steps, k as int));
            assert forall|j: int|
                k <= j < 6 implies stopped_after_retries(*old(steps), *steps, j) || #[trigger] gave_up(
                *old(steps),
                *steps,
                j,
            ) by {
                if j == k {
                    if res is Ok {
                        let m = choose|m: nat|
                            m < STEP_MAX_ATTEMPTS && #[trigger] steps.calls(j) == pre.calls(j)
                                + failed_stops(m).push((false, true));
                        assert(steps.calls(j) == old(steps).calls(j) + failed_stops(m).push(
                            (false, true),
                        ));
                    }
                } else {
                    assert(steps.calls(j) == pre.calls(j));
                    if !gave_up(*old(steps), pre, j) {
                        let m = choose|m: nat|
                            m < STEP_MAX_ATTEMPTS && #[trigger] pre.calls(j) == old(steps).calls(j)
                                + failed_stops(m).push((false, true));
                        assert(steps.calls(j) == old(steps).calls(j) + failed_stops(m).push(
                            (false, true),
                        ));
                    }
                }
            }
            assert forall|m: int| 0 <= m < before_idx.len() implies gave_up(
                *old(steps),
                *steps,
                #[trigger] before_idx[m],
            ) by {
                assert(steps.calls(before_idx[m]) == pre.calls(before_idx[m]));
            }
            assert forall|j: int| k < j < 6 && #[trigger] gave_up(*old(steps), *steps, j) implies before_idx.contains(j) by {
                assert(steps.calls(j) == pre.calls(j));
                assert(gave_up(*old(steps), pre, j));
            }
            if res is Ok {
                if gave_up(*old(steps), *steps, k as int) {
                    let m = choose|m: nat|
                        m < STEP_MAX_ATTEMPTS && #[trigger] steps.calls(k as int) == pre.calls(k as int)
                            + failed_stops(m).push((false, true));
                    assert(steps.calls(k as int).len() == pre.calls(k as int).len() + m + 1);
                    assert(steps.calls(k as int).last() == (false, true));
                    assert(steps.calls(k as int).last() == (false, false));
                }
            }
        }
        match res {
            Ok(()) => {},
            Err(error) => {
                failed_steps.push((owned(name), error));
                proof {
                    failed_idx = failed_idx.push(k as int);
                    assert forall|m: int| 0 <= m < failed_idx.len() implies 0 <= #[trigger] failed_idx[m] < 6
                        && failed_steps@[m].0@ == old(steps).name_of(failed_idx[m]) by {
                        if m < before_idx.len() {
                            assert(failed_idx[m] == before_idx[m]);
                        }
                    }
                    if before_idx.contains(NFTABLES_STEP as int) {
                        let w = choose|m: int| 0 <= m < before_idx.len() && before_idx[m] == NFTABLES_STEP as int;
                        assert(failed_idx[w] == NFTABLES_STEP as int);
                    }
                    if k == NFTABLES_STEP {
                        assert(failed_idx[failed_idx.len() - 1] == NFTABLES_STEP as int);
                    }
                    assert forall|m: int| 0 <= m < failed_idx.len() implies gave_up(
                        *old(steps),
                        *steps,
                        #[trigger] failed_idx[m],
                    ) by {
                        if m < before_idx.len() {
                            assert(failed_idx[m] == before_idx[m]);
                        }
                    }
                    assert forall|j: int| k <= j < 6 && #[trigger] gave_up(*old(steps), *steps, j) implies failed_idx.contains(j) by {
                        if j == k {
                            assert(failed_idx[failed_idx.len() - 1] == k);
                        } else {
                            let w = choose|w: int| 0 <= w < before_idx.len() && before_idx[w] == j;
                            assert(failed_idx[w] == j);
                        }
                    }
                }
            },
        }
        i -= 1;
    }
    proof {
        assert(gave_up_in_order(*old(steps), *steps, failed_idx, failed_steps@));
        if steps.on(NFTABLES_STEP as int) {
            let w = choose|m: int| 0 <= m < failed_idx.len() && failed_idx[m] == NFTABLES_STEP as int;
            assert(failed_steps@[w].0@ == "nftables"@);
        }
        assert forall|k: int| 0 <= k < failed_steps@.len() implies old(steps).names_a_step(
            (#[trigger] failed_steps@[k]).0@,
        ) by {
            assert(failed_steps@[k].0@ == old(steps).name_of(failed_idx[k]));
        }
    }
    let report = DeactivationReport { failed_steps };
    assert(gave_up_in_order(*old(steps), *steps, failed_idx, report.failed_steps@));
    report
}

} // verus!
