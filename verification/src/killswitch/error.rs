//! Errors of the kill switch and of the domains it orchestrates.

use vstd::prelude::*;

use crate::text::{owned, push_str};

verus! {

#[derive(Debug, Clone)]
pub enum KillSwitchError {
    NftablesExec(String),
    Persistence(String),
    /// A domain failed to run (spawn of a helper, privileged call, ...).
    SubsystemExec { subsystem: String, reason: String },
    /// Activation stopped at a step.
    ActivationFailed { step: String, reason: String },
}

impl KillSwitchError {
    /// The text of the error, as shown to the user.
    pub open spec fn spec_message(&self) -> Seq<char> {
        match self {
            KillSwitchError::NftablesExec(m) => "échec d'exécution nftables: "@ + m@,
            KillSwitchError::Persistence(m) => "échec de persistance system_events: "@ + m@,
            KillSwitchError::SubsystemExec { subsystem, reason } => "échec du sous-système "@
                + subsystem@ + ": "@ + reason@,
            KillSwitchError::ActivationFailed { step, reason } => "activation interrompue à l'étape "@
                + step@ + ": "@ + reason@,
        }
    }

    pub fn message(&self) -> (m: String)
        ensures
            m@ == self.spec_message(),
    {
        match self {
            KillSwitchError::NftablesExec(m) => {
                let mut s = owned("échec d'exécution nftables: ");
                push_str(&mut s, m.as_str());
                s
            },
            KillSwitchError::Persistence(m) => {
                let mut s = owned("échec de persistance system_events: ");
                push_str(&mut s, m.as_str());
                s
            },
            KillSwitchError::SubsystemExec { subsystem, reason } => {
                let mut s = owned("échec du sous-système ");
                push_str(&mut s, subsystem.as_str());
                push_str(&mut s, ": ");
                push_str(&mut s, reason.as_str());
                s
            },
            KillSwitchError::ActivationFailed { step, reason } => {
                let mut s = owned("activation interrompue à l'étape ");
                push_str(&mut s, step.as_str());
                push_str(&mut s, ": ");
                push_str(&mut s, reason.as_str());
                s
            },
        }
    }
}

/// `e` is the error of domain `subsystem` failing for `reason`.
pub open spec fn is_exec_error(e: KillSwitchError, subsystem: Seq<char>, reason: Seq<char>) -> bool {
    e matches KillSwitchError::SubsystemExec { subsystem: s, reason: r } && s@ == subsystem && r@
        == reason
}

/// The error of a domain that failed to run.
pub fn exec_error(subsystem: &str, reason: &str) -> (e: KillSwitchError)
    ensures
        e matches KillSwitchError::SubsystemExec { subsystem: s, reason: r } && s@ == subsystem@
            && r@ == reason@,
{
    KillSwitchError::SubsystemExec { subsystem: owned(subsystem), reason: owned(reason) }
}

} // verus!
