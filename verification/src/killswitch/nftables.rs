//! The boundary between the kill switch and the redirection chain of nftables.

use vstd::prelude::*;

use super::KillSwitchError;
use crate::text::{trim, trim_str};

verus! {

/// Applies and removes the `VITRAIL_REDIRECT` chain. A successful `apply` leaves the chain
/// present, a successful `flush` leaves it absent; after a failure nothing is promised.
pub trait NftablesBackend {
    spec fn spec_applied(&self) -> bool;

    /// The applies and flushes made, in order, each with whether it succeeded: `(true, ok)`
    /// for an apply, `(false, ok)` for a flush.
    spec fn spec_calls(&self) -> Seq<(bool, bool)>;

    /// Whether every apply and flush succeeds: true of a chain held in memory.
    spec fn spec_reliable(&self) -> bool;

    fn apply(&mut self) -> (r: Result<(), KillSwitchError>)
        ensures
            r is Ok ==> final(self).spec_applied(),
            final(self).spec_calls() == old(self).spec_calls().push((true, r is Ok)),
            final(self).spec_reliable() == old(self).spec_reliable(),
            old(self).spec_reliable() ==> r is Ok,
    ;

    fn flush(&mut self) -> (r: Result<(), KillSwitchError>)
        ensures
            r is Ok ==> !final(self).spec_applied(),
            final(self).spec_calls() == old(self).spec_calls().push((false, r is Ok)),
            final(self).spec_reliable() == old(self).spec_reliable(),
            old(self).spec_reliable() ==> r is Ok,
    ;

    fn is_applied(&self) -> (b: bool)
        ensures
            b == self.spec_applied(),
    ;
}

/// The outcome of one run of the privileged helper on the chain: success, or its trimmed
/// error output.
pub fn nft_outcome(success: bool, stderr: &str) -> (r: Result<(), KillSwitchError>)
    ensures
        r is Ok <==> success,
        r matches Err(e) ==> (e matches KillSwitchError::NftablesExec(m) && m@ == trim(stderr@)),
{
    if success {
        Ok(())
    } else {
        Err(KillSwitchError::NftablesExec(trim_str(stderr)))
    }
}

/// An in-memory chain: `apply` and `flush` always succeed.
pub struct FakeNftablesBackend {
    applied: bool,
    calls: Ghost<Seq<(bool, bool)>>,
}

impl FakeNftablesBackend {
    pub fn new() -> (r: FakeNftablesBackend)
        ensures
            !r.spec_applied(),
            r.spec_calls().len() == 0,
    {
        FakeNftablesBackend { applied: false, calls: Ghost(Seq::empty()) }
    }
}

impl NftablesBackend for FakeNftablesBackend {
    closed spec fn spec_applied(&self) -> bool {
        self.applied
    }

    closed spec fn spec_calls(&self) -> Seq<(bool, bool)> {
        self.calls@
    }

    closed spec fn spec_reliable(&self) -> bool {
        true
    }

    fn apply(&mut self) -> (r: Result<(), KillSwitchError>)
        ensures
            r is Ok,
    {
        self.applied = true;
        proof {
            self.calls@ = self.calls@.push((true, true));
        }
        Ok(())
    }

    fn flush(&mut self) -> (r: Result<(), KillSwitchError>)
        ensures
            r is Ok,
    {
        self.applied = false;
        proof {
            self.calls@ = self.calls@.push((false, true));
        }
        Ok(())
    }

    fn is_applied(&self) -> (b: bool) {
        self.applied
    }
}

/// The privileged helper on the system (`pkexec vitrail-helper <subcommand>`): `Err` with the
/// error text when it could not be run, else whether it succeeded and its error output.
pub trait NftCommands {
    fn run_helper(&mut self, subcommand: &str) -> Result<(bool, String), String>;
}

/// The chain on the system, driven through the privileged helper. Whether the chain is
/// present is what the last successful `apply` or `flush` left.
pub struct SystemNftablesBackend<C: NftCommands> {
    commands: C,
    applied: bool,
    requests: Ghost<Seq<Seq<char>>>,
    calls: Ghost<Seq<(bool, bool)>>,
}

impl<C: NftCommands> SystemNftablesBackend<C> {
    /// The subcommands handed to the helper, in order.
    pub closed spec fn spec_requests(&self) -> Seq<Seq<char>> {
        self.requests@
    }

    pub closed spec fn spec_commands(&self) -> C {
        self.commands
    }

    pub fn new(commands: C) -> (r: SystemNftablesBackend<C>)
        ensures
            !r.spec_applied(),
            r.spec_requests().len() == 0,
            r.spec_commands() == commands,
            r.spec_calls().len() == 0,
    {
        SystemNftablesBackend {
            commands,
            applied: false,
            requests: Ghost(Seq::empty()),
            calls: Ghost(Seq::empty()),
        }
    }

    pub fn commands(&self) -> (r: &C)
        ensures
            *r == self.spec_commands(),
    {
        &self.commands
    }

    /// Hands `subcommand` to the helper; its outcome, or the error of a helper that could
    /// not be run.
    fn run(&mut self, subcommand: &str) -> (r: Result<(), KillSwitchError>)
        ensures
            final(self).applied == old(self).applied,
            final(self).calls == old(self).calls,
            final(self).spec_requests() == old(self).spec_requests().push(subcommand@),
            r matches Err(e) ==> e is NftablesExec,
    {
        proof {
            self.requests@ = self.requests@.push(subcommand@);
        }
        match self.commands.run_helper(subcommand) {
            Ok((success, stderr)) => nft_outcome(success, stderr.as_str()),
            Err(error) => Err(KillSwitchError::NftablesExec(error)),
        }
    }
}

impl<C: NftCommands> NftablesBackend for SystemNftablesBackend<C> {
    closed spec fn spec_applied(&self) -> bool {
        self.applied
    }

    closed spec fn spec_calls(&self) -> Seq<(bool, bool)> {
        self.calls@
    }

    /// It drives the system, which may refuse.
    closed spec fn spec_reliable(&self) -> bool {
        false
    }

    /// `nft-apply`.
    fn apply(&mut self) -> (r: Result<(), KillSwitchError>)
        ensures
            final(self).spec_requests() == old(self).spec_requests().push("nft-apply"@),
            r is Err ==> final(self).spec_applied() == old(self).spec_applied(),
            r matches Err(e) ==> e is NftablesExec,
    {
        let r = self.run("nft-apply");
        if r.is_ok() {
            self.applied = true;
        }
        proof {
            self.calls@ = self.calls@.push((true, r is Ok));
        }
        r
    }

    /// `nft-flush`.
    fn flush(&mut self) -> (r: Result<(), KillSwitchError>)
        ensures
            final(self).spec_requests() == old(self).spec_requests().push("nft-flush"@),
            r is Err ==> final(self).spec_applied() == old(self).spec_applied(),
            r matches Err(e) ==> e is NftablesExec,
    {
        let r = self.run("nft-flush");
        if r.is_ok() {
            self.applied = false;
        }
        proof {
            self.calls@ = self.calls@.push((false, r is Ok));
        }
        r
    }

    fn is_applied(&self) -> (b: bool) {
        self.applied
    }
}

} // verus!
