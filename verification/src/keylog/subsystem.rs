//! The keylog domain as the kill switch drives it. The real one truncates the key file,
//! injects the targeted applications and runs tshark; this in-memory one only records
//! whether it runs.

use vstd::prelude::*;

use crate::killswitch::{KillSwitchError, Subsystem};

verus! {

/// A keylog domain that touches no file and runs no process.
pub struct FakeKeylogSubsystem {
    active: bool,
    calls: Ghost<Seq<(bool, bool)>>,
}

impl FakeKeylogSubsystem {
    pub fn new() -> (s: FakeKeylogSubsystem)
        ensures
            s.spec_name() == "keylog"@,
            !s.spec_active(),
    {
        FakeKeylogSubsystem { active: false, calls: Ghost(Seq::empty()) }
    }
}

impl Subsystem for FakeKeylogSubsystem {
    closed spec fn spec_name(&self) -> Seq<char> {
        "keylog"@
    }

    closed spec fn spec_active(&self) -> bool {
        self.active
    }

    closed spec fn spec_calls(&self) -> Seq<(bool, bool)> {
        self.calls@
    }

    closed spec fn spec_reliable(&self) -> bool {
        true
    }

    fn name(&self) -> (n: &'static str) {
        "keylog"
    }

    fn start(&mut self) -> (r: Result<(), KillSwitchError>)
        ensures
            r is Ok,
    {
        self.active = true;
        proof {
            self.calls@ = self.calls@.push((true, true));
        }
        Ok(())
    }

    fn stop(&mut self) -> (r: Result<(), KillSwitchError>)
        ensures
            r is Ok,
    {
        self.active = false;
        proof {
            self.calls@ = self.calls@.push((false, true));
        }
        Ok(())
    }

    fn is_active(&self) -> (b: bool) {
        self.active
    }
}

} // verus!
