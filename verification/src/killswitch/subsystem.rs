//! The life cycle of each domain orchestrated by the kill switch.

use vstd::prelude::*;

use super::KillSwitchError;

verus! {

/// A domain that the kill switch starts and stops.
///
/// Every implementation keeps its name, is active after a successful `start`, keeps its
/// state when `start` fails, and is inactive after `stop`, whatever `stop` returns. Each
/// call is recorded with its outcome.
pub trait Subsystem {
    spec fn spec_name(&self) -> Seq<char>;

    spec fn spec_active(&self) -> bool;

    /// The starts and stops made on the domain, in order, each with whether it succeeded:
    /// `(true, ok)` for a start, `(false, ok)` for a stop.
    spec fn spec_calls(&self) -> Seq<(bool, bool)>;

    /// Whether every start and stop of the domain succeeds: true of a domain that holds no
    /// system state of its own.
    spec fn spec_reliable(&self) -> bool;

    fn name(&self) -> (n: &'static str)
        ensures
            n@ == self.spec_name(),
    ;

    fn start(&mut self) -> (r: Result<(), KillSwitchError>)
        ensures
            final(self).spec_name() == old(self).spec_name(),
            r is Ok ==> final(self).spec_active(),
            r is Err ==> final(self).spec_active() == old(self).spec_active(),
            final(self).spec_calls() == old(self).spec_calls().push((true, r is Ok)),
            final(self).spec_reliable() == old(self).spec_reliable(),
            old(self).spec_reliable() ==> r is Ok,
    ;

    fn stop(&mut self) -> (r: Result<(), KillSwitchError>)
        ensures
            final(self).spec_name() == old(self).spec_name(),
            !final(self).spec_active(),
            final(self).spec_calls() == old(self).spec_calls().push((false, r is Ok)),
            final(self).spec_reliable() == old(self).spec_reliable(),
            old(self).spec_reliable() ==> r is Ok,
    ;

    fn is_active(&self) -> (b: bool)
        ensures
            b == self.spec_active(),
    ;
}

/// A domain with no system state of its own: it only records whether it is running.
pub struct StubSubsystem {
    name: &'static str,
    active: bool,
    calls: Ghost<Seq<(bool, bool)>>,
}

impl StubSubsystem {
    pub fn new(name: &'static str) -> (r: StubSubsystem)
        ensures
            r.spec_name() == name@,
            !r.spec_active(),
            r.spec_calls().len() == 0,
            r.spec_reliable(),
    {
        StubSubsystem { name, active: false, calls: Ghost(Seq::empty()) }
    }
}

impl Subsystem for StubSubsystem {
    closed spec fn spec_name(&self) -> Seq<char> {
        self.name@
    }

    closed spec fn spec_active(&self) -> bool {
        self.active
    }

    closed spec fn spec_calls(&self) -> Seq<(bool, bool)> {
        self.calls@
    }

    closed spec fn spec_reliable(&self) -> bool {
        true
    }

    fn name(&self) -> (n: &'static str) {
        self.name
    }

    fn start(&mut self) -> (r: Result<(), KillSwitchError>)
        ensures
            r is Ok,
    {
        self.active = true;
        proof {
            self.calls@ = self.calls@.push((true, true));
        }
        Ok(())
    }

    fn stop(&mut self) -> (r: Result<(), KillSwitchError>)
        ensures
            r is Ok,
    {
        self.active = false;
        proof {
            self.calls@ = self.calls@.push((false, true));
        }
        Ok(())
    }

    fn is_active(&self) -> (b: bool) {
        self.active
    }
}

/// The work of a domain on the system (launching its processes, reconfiguring a daemon...).
pub trait Service {
    fn start(&mut self) -> Result<(), KillSwitchError>;

    fn stop(&mut self) -> Result<(), KillSwitchError>;
}

/// A domain backed by a service: active after a successful start, inactive after any stop
/// (a failed stop is reported, the domain is still stopped).
pub struct ServiceSubsystem<S: Service> {
    name: &'static str,
    active: bool,
    service: S,
    calls: Ghost<Seq<(bool, bool)>>,
}

impl<S: Service> ServiceSubsystem<S> {
    pub fn new(name: &'static str, service: S) -> (r: ServiceSubsystem<S>)
        ensures
            r.spec_name() == name@,
            !r.spec_active(),
            r.spec_service() == service,
            r.spec_calls().len() == 0,
    {
        ServiceSubsystem { name, active: false, service, calls: Ghost(Seq::empty()) }
    }

    /// The service run by the domain.
    pub closed spec fn spec_service(&self) -> S {
        self.service
    }

    pub fn service(&self) -> (r: &S)
        ensures
            *r == self.spec_service(),
    {
        &self.service
    }
}

impl<S: Service> Subsystem for ServiceSubsystem<S> {
    closed spec fn spec_name(&self) -> Seq<char> {
        self.name@
    }

    closed spec fn spec_active(&self) -> bool {
        self.active
    }

    closed spec fn spec_calls(&self) -> Seq<(bool, bool)> {
        self.calls@
    }

    /// It drives the system, which may refuse.
    closed spec fn spec_reliable(&self) -> bool {
        false
    }

    fn name(&self) -> (n: &'static str) {
        self.name
    }

    fn start(&mut self) -> (r: Result<(), KillSwitchError>) {
        let r = self.service.start();
        if r.is_ok() {
            self.active = true;
        }
        proof {
            self.calls@ = self.calls@.push((true, r is Ok));
        }
        r
    }

    fn stop(&mut self) -> (r: Result<(), KillSwitchError>) {
        let r = self.service.stop();
        self.active = false;
        proof {
            self.calls@ = self.calls@.push((false, r is Ok));
        }
        r
    }

    fn is_active(&self) -> (b: bool) {
        self.active
    }
}

} // verus!
