//! The capture domain as the kill switch drives it. The real one runs the privileged capture
//! helper; this in-memory one only records whether it runs.

use vstd::prelude::*;

use crate::killswitch::{KillSwitchError, Subsystem};

verus! {

/// A capture domain that runs no process.
pub struct FakeCaptureSubsystem {
    active: bool,
    calls: Ghost<Seq<(bool, bool)>>,
}

impl FakeCaptureSubsystem {
    pub fn new() -> (s: FakeCaptureSubsystem)
        ensures
            s.spec_name() == "capture"@,
            !s.spec_active(),
    {
        FakeCaptureSubsystem { active: false, calls: Ghost(Seq::empty()) }
    }
}

impl Subsystem for FakeCaptureSubsystem {
    closed spec fn spec_name(&self) -> Seq<char> {
        "capture"@
    }

    closed spec fn spec_active(&self) -> bool {
        self.active
    }

    closed spec fn spec_calls(&self) -> Seq<(bool, bool)> {
        self.calls@
    }

    closed spec fn spec_reliable(&self) -> bool {
        true
    }

    fn name(&self) -> (n: &'static str) {
        "capture"
    }

    fn start(&mut self) -> (r: Result<(), KillSwitchError>)
        ensures
            r is Ok,
    {
        self.active = true;
        proof {
            self.calls@ = self.calls@.push((true, true));
        }
        Ok(())
    }

    fn stop(&mut self) -> (r: Result<(), KillSwitchError>)
        ensures
            r is Ok,
    {
        self.active = false;
        proof {
            self.calls@ = self.calls@.push((false, true));
        }
        Ok(())
    }

    fn is_active(&self) -> (b: bool) {
        self.active
    }
}

} // verus!
