//! The privileged helper as the decryption domain uses it: the CA in the system trust
//! store, the redirection of web traffic to PolarProxy, and the excluded addresses.

use vstd::prelude::*;

use crate::shared::{dup_strings, strings_view};
use crate::text::{dec, owned, push_dec, push_str, trim, trim_str};

verus! {

/// The error's text of an outcome, nothing for a success.
pub open spec fn outcome_error<T>(r: Result<T, String>) -> Option<Seq<char>> {
    match r {
        Ok(_) => None,
        Err(e) => Some(e@),
    }
}

/// The privileged operations of the decryption domain. Every operation but the two on the
/// redirection leaves the redirection as it is.
pub trait HelperBackend {
    /// Whether web traffic is currently redirected to PolarProxy.
    spec fn spec_redirect(&self) -> bool;

    /// How many times the clearing of the redirection was attempted.
    spec fn spec_clear_attempts(&self) -> nat;

    /// The address sets handed to `nft_set_exclusions`, in order, each with whether the
    /// helper accepted it.
    spec fn spec_exclusion_requests(&self) -> Seq<(Seq<Seq<char>>, bool)>;

    /// The ports the traffic was asked to be redirected to, in order, each with whether the
    /// redirection was applied.
    spec fn spec_redirect_requests(&self) -> Seq<(u16, bool)>;

    /// The outcomes of the clearings of the redirection, in order.
    spec fn spec_clear_outcomes(&self) -> Seq<bool>;

    /// The trust-store requests, in order: `(true, certificate path)` for an installation,
    /// `(false, fingerprint)` for a removal.
    spec fn spec_trust_requests(&self) -> Seq<(bool, Seq<char>)>;

    /// The outcome of each trust-store request, in order: nothing for a success, the error's
    /// text for a failure.
    spec fn spec_trust_outcomes(&self) -> Seq<Option<Seq<char>>>;

    fn install_ca(&mut self, cert_path: &str) -> (r: Result<(), String>)
        ensures
            final(self).spec_redirect() == old(self).spec_redirect(),
            final(self).spec_exclusion_requests() == old(self).spec_exclusion_requests(),
            final(self).spec_trust_requests() == old(self).spec_trust_requests().push(
                (true, cert_path@),
            ),
            final(self).spec_trust_outcomes() == old(self).spec_trust_outcomes().push(outcome_error(r)),
            final(self).spec_redirect_requests() == old(self).spec_redirect_requests(),
            final(self).spec_clear_outcomes() == old(self).spec_clear_outcomes(),
    ;

    fn remove_ca(&mut self, fingerprint: &str) -> (r: Result<(), String>)
        ensures
            final(self).spec_redirect() == old(self).spec_redirect(),
            final(self).spec_exclusion_requests() == old(self).spec_exclusion_requests(),
            final(self).spec_trust_requests() == old(self).spec_trust_requests().push(
                (false, fingerprint@),
            ),
            final(self).spec_trust_outcomes() == old(self).spec_trust_outcomes().push(outcome_error(r)),
            final(self).spec_redirect_requests() == old(self).spec_redirect_requests(),
            final(self).spec_clear_outcomes() == old(self).spec_clear_outcomes(),
    ;

    fn nft_redirect(&mut self, port: u16) -> (r: Result<(), String>)
        ensures
            r is Ok ==> final(self).spec_redirect(),
            final(self).spec_exclusion_requests() == old(self).spec_exclusion_requests(),
            final(self).spec_trust_requests() == old(self).spec_trust_requests(),
            final(self).spec_trust_outcomes() == old(self).spec_trust_outcomes(),
            final(self).spec_redirect_requests() == old(self).spec_redirect_requests().push(
                (port, r is Ok),
            ),
            final(self).spec_clear_outcomes() == old(self).spec_clear_outcomes(),
            final(self).spec_clear_attempts() == old(self).spec_clear_attempts(),
    ;

    fn nft_clear_redirect(&mut self) -> (r: Result<(), String>)
        ensures
            r is Ok ==> !final(self).spec_redirect(),
            final(self).spec_clear_attempts() == old(self).spec_clear_attempts() + 1,
            final(self).spec_exclusion_requests() == old(self).spec_exclusion_requests(),
            final(self).spec_trust_requests() == old(self).spec_trust_requests(),
            final(self).spec_trust_outcomes() == old(self).spec_trust_outcomes(),
            final(self).spec_redirect_requests() == old(self).spec_redirect_requests(),
            final(self).spec_clear_outcomes() == old(self).spec_clear_outcomes().push(r is Ok),
    ;

    fn nft_set_exclusions(&mut self, ips: &Vec<String>) -> (r: Result<(), String>)
        ensures
            final(self).spec_redirect() == old(self).spec_redirect(),
            final(self).spec_exclusion_requests() == old(self).spec_exclusion_requests().push(
                (strings_view(ips@), r is Ok),
            ),
            final(self).spec_trust_requests() == old(self).spec_trust_requests(),
            final(self).spec_trust_outcomes() == old(self).spec_trust_outcomes(),
            final(self).spec_redirect_requests() == old(self).spec_redirect_requests(),
            final(self).spec_clear_outcomes() == old(self).spec_clear_outcomes(),
    ;
}

pub open spec fn privileged_port_message(port: u16) -> Seq<char> {
    "port privilégié refusé (attendu > 1024): "@ + dec(port as nat)
}

/// Only a non-privileged local port (above 1024) may receive the redirected traffic; the
/// helper checks again on its side.
pub fn validate_redirect_port(port: u16) -> (r: Result<(), String>)
    ensures
        r is Ok <==> port > 1024,
        r matches Err(m) ==> m@ == privileged_port_message(port),
{
    if port <= 1024 {
        let mut m = owned("port privilégié refusé (attendu > 1024): ");
        push_dec(&mut m, port as u64);
        return Err(m);
    }
    Ok(())
}

/// The outcome of one run of the helper: success, or its trimmed error output.
pub fn helper_outcome(success: bool, stderr: &str) -> (r: Result<(), String>)
    ensures
        r is Ok <==> success,
        r matches Err(m) ==> m@ == trim(stderr@),
{
    if success {
        Ok(())
    } else {
        Err(trim_str(stderr))
    }
}

/// A helper that counts its calls and keeps the redirection in memory; the next clearings of
/// the redirection can be made to fail.
pub struct FakeHelperBackend {
    install_calls: usize,
    remove_calls: usize,
    redirect_calls: Vec<u16>,
    clear_redirect_calls: usize,
    exclusions_calls: Vec<Vec<String>>,
    clear_redirect_fail_remaining: usize,
    redirected: bool,
    attempts: Ghost<nat>,
    trust_log: Ghost<Seq<(bool, Seq<char>)>>,
    trust_outcomes: Ghost<Seq<Option<Seq<char>>>>,
    clear_log: Ghost<Seq<bool>>,
}

impl FakeHelperBackend {
    pub closed spec fn spec_install_calls(&self) -> nat {
        self.install_calls as nat
    }

    pub closed spec fn spec_remove_calls(&self) -> nat {
        self.remove_calls as nat
    }

    pub closed spec fn spec_redirect_calls(&self) -> Seq<u16> {
        self.redirect_calls@
    }

    pub closed spec fn spec_clear_calls(&self) -> nat {
        self.clear_redirect_calls as nat
    }

    pub closed spec fn spec_fail_remaining(&self) -> nat {
        self.clear_redirect_fail_remaining as nat
    }

    pub closed spec fn spec_exclusions_calls(&self) -> nat {
        self.exclusions_calls@.len()
    }

    pub closed spec fn spec_exclusion_sets(&self) -> Seq<Seq<Seq<char>>> {
        self.exclusions_calls@.map_values(|v: Vec<String>| strings_view(v@))
    }

    pub fn new() -> (f: FakeHelperBackend)
        ensures
            f.spec_install_calls() == 0,
            f.spec_remove_calls() == 0,
            f.spec_redirect_calls().len() == 0,
            f.spec_clear_calls() == 0,
            f.spec_fail_remaining() == 0,
            f.spec_exclusions_calls() == 0,
            !f.spec_redirect(),
            f.spec_clear_attempts() == 0,
    {
        FakeHelperBackend {
            install_calls: 0,
            remove_calls: 0,
            redirect_calls: Vec::new(),
            clear_redirect_calls: 0,
            exclusions_calls: Vec::new(),
            clear_redirect_fail_remaining: 0,
            redirected: false,
            attempts: Ghost(0),
            trust_log: Ghost(Seq::empty()),
            trust_outcomes: Ghost(Seq::empty()),
            clear_log: Ghost(Seq::empty()),
        }
    }

    /// The next `n` clearings of the redirection fail.
    pub fn fail_clear_redirect_times(&mut self, n: usize)
        ensures
            final(self).spec_fail_remaining() == n,
            final(self).spec_clear_calls() == old(self).spec_clear_calls(),
            final(self).spec_redirect() == old(self).spec_redirect(),
            final(self).spec_redirect_calls() == old(self).spec_redirect_calls(),
            final(self).spec_clear_attempts() == old(self).spec_clear_attempts(),
    {
        self.clear_redirect_fail_remaining = n;
    }

    pub fn install_calls(&self) -> (n: usize)
        ensures
            n == self.spec_install_calls(),
    {
        self.install_calls
    }

    pub fn remove_calls(&self) -> (n: usize)
        ensures
            n == self.spec_remove_calls(),
    {
        self.remove_calls
    }

    pub fn redirect_calls(&self) -> (v: Vec<u16>)
        ensures
            v@ == self.spec_redirect_calls(),
    {
        self.redirect_calls.clone()
    }

    pub fn clear_redirect_calls(&self) -> (n: usize)
        ensures
            n == self.spec_clear_calls(),
    {
        self.clear_redirect_calls
    }

    pub fn is_redirected(&self) -> (b: bool)
        ensures
            b == self.spec_redirect(),
    {
        self.redirected
    }
}

impl HelperBackend for FakeHelperBackend {
    closed spec fn spec_redirect(&self) -> bool {
        self.redirected
    }

    closed spec fn spec_clear_attempts(&self) -> nat {
        self.attempts@
    }

    closed spec fn spec_exclusion_requests(&self) -> Seq<(Seq<Seq<char>>, bool)> {
        self.exclusions_calls@.map_values(|v: Vec<String>| (strings_view(v@), true))
    }

    closed spec fn spec_trust_requests(&self) -> Seq<(bool, Seq<char>)> {
        self.trust_log@
    }

    closed spec fn spec_trust_outcomes(&self) -> Seq<Option<Seq<char>>> {
        self.trust_outcomes@
    }

    closed spec fn spec_redirect_requests(&self) -> Seq<(u16, bool)> {
        self.redirect_calls@.map_values(|p: u16| (p, true))
    }

    closed spec fn spec_clear_outcomes(&self) -> Seq<bool> {
        self.clear_log@
    }

    fn install_ca(&mut self, cert_path: &str) -> (r: Result<(), String>)
        ensures
            r is Ok,
            old(self).spec_install_calls() < usize::MAX ==> final(self).spec_install_calls()
                == old(self).spec_install_calls() + 1,
    {
        proof {
            self.trust_log@ = self.trust_log@.push((true, cert_path@));
            self.trust_outcomes@ = self.trust_outcomes@.push(None);
        }
        if self.install_calls < usize::MAX {
            self.install_calls = self.install_calls + 1;
        }
        Ok(())
    }

    fn remove_ca(&mut self, fingerprint: &str) -> (r: Result<(), String>)
        ensures
            r is Ok,
            old(self).spec_remove_calls() < usize::MAX ==> final(self).spec_remove_calls()
                == old(self).spec_remove_calls() + 1,
    {
        proof {
            self.trust_log@ = self.trust_log@.push((false, fingerprint@));
            self.trust_outcomes@ = self.trust_outcomes@.push(None);
        }
        if self.remove_calls < usize::MAX {
            self.remove_calls = self.remove_calls + 1;
        }
        Ok(())
    }

    fn nft_redirect(&mut self, port: u16) -> (r: Result<(), String>)
        ensures
            r is Ok,
            final(self).spec_redirect_calls() == old(self).spec_redirect_calls().push(port),
    {
        let ghost before = self.redirect_calls@;
        self.redirect_calls.push(port);
        assert(self.redirect_calls@.map_values(|p: u16| (p, true)) =~= before.map_values(
            |p: u16| (p, true),
        ).push((port, true)));
        self.redirected = true;
        Ok(())
    }

    /// Fails while failures remain to be simulated; every call is counted.
    fn nft_clear_redirect(&mut self) -> (r: Result<(), String>)
        ensures
            old(self).spec_clear_calls() < usize::MAX ==> final(self).spec_clear_calls()
                == old(self).spec_clear_calls() + 1,
            r is Ok <==> old(self).spec_fail_remaining() == 0,
            final(self).spec_fail_remaining() == if old(self).spec_fail_remaining() > 0 {
                (old(self).spec_fail_remaining() - 1) as nat
            } else {
                0
            },
            final(self).spec_redirect_calls() == old(self).spec_redirect_calls(),
    {
        if self.clear_redirect_calls < usize::MAX {
            self.clear_redirect_calls = self.clear_redirect_calls + 1;
        }
        proof {
            self.attempts@ = self.attempts@ + 1;
        }
        if self.clear_redirect_fail_remaining > 0 {
            self.clear_redirect_fail_remaining = self.clear_redirect_fail_remaining - 1;
            proof {
                self.clear_log@ = self.clear_log@.push(false);
            }
            return Err(owned("échec simulé de nft-clear-redirect (fake, pkexec indisponible)"));
        }
        self.redirected = false;
        proof {
            self.clear_log@ = self.clear_log@.push(true);
        }
        Ok(())
    }

    fn nft_set_exclusions(&mut self, ips: &Vec<String>) -> (r: Result<(), String>)
        ensures
            r is Ok,
            final(self).spec_exclusions_calls() == old(self).spec_exclusions_calls() + 1,
            final(self).spec_redirect_calls() == old(self).spec_redirect_calls(),
    {
        let ghost before = self.exclusions_calls@;
        self.exclusions_calls.push(dup_strings(ips));
        assert(self.exclusions_calls@.map_values(|v: Vec<String>| strings_view(v@))
            =~= before.map_values(|v: Vec<String>| strings_view(v@)).push(strings_view(ips@)));
        assert(self.exclusions_calls@.map_values(|v: Vec<String>| (strings_view(v@), true))
            =~= before.map_values(|v: Vec<String>| (strings_view(v@), true)).push(
            (strings_view(ips@), true),
        ));
        Ok(())
    }
}

/// The privileged helper on the system (`pkexec vitrail-helper <args>`): `Err` with the error
/// text when it could not be run, else whether it succeeded and its error output.
pub trait HelperCommands {
    fn run_helper(&mut self, args: &Vec<String>) -> Result<(bool, String), String>;
}

/// The privileged operations on the system, through the helper. Whether traffic is redirected
/// is what the last successful `nft-redirect` or `nft-clear-redirect` left.
pub struct SystemHelperBackend<C: HelperCommands> {
    commands: C,
    redirected: Ghost<bool>,
    attempts: Ghost<nat>,
    runs: Ghost<Seq<Seq<Seq<char>>>>,
    exclusion_sets: Ghost<Seq<(Seq<Seq<char>>, bool)>>,
    trust_log: Ghost<Seq<(bool, Seq<char>)>>,
    trust_outcomes: Ghost<Seq<Option<Seq<char>>>>,
    clear_log: Ghost<Seq<bool>>,
    redirect_log: Ghost<Seq<(u16, bool)>>,
}

/// The arguments `subcommand` then `arg`.
fn args2(subcommand: &str, arg: &str) -> (v: Vec<String>)
    ensures
        v@.map_values(|a: String| a@) == seq![subcommand@, arg@],
{
    let mut v: Vec<String> = Vec::new();
    v.push(owned(subcommand));
    v.push(owned(arg));
    assert(v@.map_values(|a: String| a@) =~= seq![subcommand@, arg@]);
    v
}

/// The addresses joined with `,`.
pub open spec fn comma_joined(ips: Seq<Seq<char>>) -> Seq<char>
    decreases ips.len(),
{
    if ips.len() == 0 {
        Seq::empty()
    } else if ips.len() == 1 {
        ips[0]
    } else {
        comma_joined(ips.drop_last()) + ","@ + ips.last()
    }
}

fn join_commas(ips: &Vec<String>) -> (r: String)
    ensures
        r@ == comma_joined(ips@.map_values(|a: String| a@)),
{
    let ghost iv = ips@.map_values(|a: String| a@);
    let mut r = String::new();
    let mut i: usize = 0;
    while i < ips.len()
        invariant
            iv == ips@.map_values(|a: String| a@),
            0 <= i <= ips@.len(),
            r@ == comma_joined(iv.subrange(0, i as int)),
        decreases ips@.len() - i,
    {
        let ghost sub = iv.subrange(0, i + 1);
        assert(sub.drop_last() =~= iv.subrange(0, i as int));
        if i > 0 {
            push_str(&mut r, ",");
        }
        push_str(&mut r, ips[i].as_str());
        proof {
            if i == 0 {
                assert(r@ =~= comma_joined(sub));
            } else {
                assert(r@ =~= comma_joined(sub));
            }
        }
        i += 1;
    }
    assert(iv.subrange(0, iv.len() as int) =~= iv);
    r
}

impl<C: HelperCommands> SystemHelperBackend<C> {
    /// The argument lists handed to the helper, in order.
    pub closed spec fn spec_runs(&self) -> Seq<Seq<Seq<char>>> {
        self.runs@
    }

    pub closed spec fn spec_commands(&self) -> C {
        self.commands
    }

    pub fn new(commands: C) -> (b: SystemHelperBackend<C>)
        ensures
            !b.spec_redirect(),
            b.spec_clear_attempts() == 0,
            b.spec_runs().len() == 0,
            b.spec_commands() == commands,
    {
        SystemHelperBackend {
            commands,
            redirected: Ghost(false),
            attempts: Ghost(0),
            runs: Ghost(Seq::empty()),
            exclusion_sets: Ghost(Seq::empty()),
            trust_log: Ghost(Seq::empty()),
            trust_outcomes: Ghost(Seq::empty()),
            clear_log: Ghost(Seq::empty()),
            redirect_log: Ghost(Seq::empty()),
        }
    }

    pub fn commands(&self) -> (r: &C)
        ensures
            *r == self.spec_commands(),
    {
        &self.commands
    }

    /// Hands `args` to the helper; its outcome, or the error of a helper that could not be
    /// run.
    fn run(&mut self, args: &Vec<String>) -> (r: Result<(), String>)
        ensures
            final(self).redirected == old(self).redirected,
            final(self).attempts == old(self).attempts,
            final(self).exclusion_sets == old(self).exclusion_sets,
            final(self).trust_log == old(self).trust_log,
            final(self).trust_outcomes == old(self).trust_outcomes,
            final(self).clear_log == old(self).clear_log,
            final(self).redirect_log == old(self).redirect_log,
            final(self).spec_runs() == old(self).spec_runs().push(
                args@.map_values(|a: String| a@),
            ),
    {
        proof {
            self.runs@ = self.runs@.push(args@.map_values(|a: String| a@));
        }
        match self.commands.run_helper(args) {
            Ok((success, stderr)) => helper_outcome(success, stderr.as_str()),
            Err(error) => Err(error),
        }
    }
}

impl<C: HelperCommands> HelperBackend for SystemHelperBackend<C> {
    closed spec fn spec_redirect(&self) -> bool {
        self.redirected@
    }

    closed spec fn spec_clear_attempts(&self) -> nat {
        self.attempts@
    }

    closed spec fn spec_exclusion_requests(&self) -> Seq<(Seq<Seq<char>>, bool)> {
        self.exclusion_sets@
    }

    closed spec fn spec_trust_requests(&self) -> Seq<(bool, Seq<char>)> {
        self.trust_log@
    }

    closed spec fn spec_trust_outcomes(&self) -> Seq<Option<Seq<char>>> {
        self.trust_outcomes@
    }

    closed spec fn spec_redirect_requests(&self) -> Seq<(u16, bool)> {
        self.redirect_log@
    }

    closed spec fn spec_clear_outcomes(&self) -> Seq<bool> {
        self.clear_log@
    }

    /// `install-ca <cert_path>`.
    fn install_ca(&mut self, cert_path: &str) -> (r: Result<(), String>)
        ensures
            final(self).spec_runs() == old(self).spec_runs().push(seq!["install-ca"@, cert_path@]),
    {
        proof {
            self.trust_log@ = self.trust_log@.push((true, cert_path@));
        }
        let args = args2("install-ca", cert_path);
        let r = self.run(&args);
        proof {
            self.trust_outcomes@ = self.trust_outcomes@.push(outcome_error(r));
        }
        r
    }

    /// `remove-ca <fingerprint>`.
    fn remove_ca(&mut self, fingerprint: &str) -> (r: Result<(), String>)
        ensures
            final(self).spec_runs() == old(self).spec_runs().push(seq!["remove-ca"@, fingerprint@]),
    {
        proof {
            self.trust_log@ = self.trust_log@.push((false, fingerprint@));
        }
        let args = args2("remove-ca", fingerprint);
        let r = self.run(&args);
        proof {
            self.trust_outcomes@ = self.trust_outcomes@.push(outcome_error(r));
        }
        r
    }

    /// `nft-redirect <port>`, after refusing a privileged port.
    fn nft_redirect(&mut self, port: u16) -> (r: Result<(), String>)
        ensures
            port <= 1024 ==> (r matches Err(m) && m@ == privileged_port_message(port))
                && final(self).spec_runs() == old(self).spec_runs()
                && final(self).spec_redirect() == old(self).spec_redirect(),
            port > 1024 ==> final(self).spec_runs() == old(self).spec_runs().push(
                seq!["nft-redirect"@, dec(port as nat)],
            ),
            r is Err ==> final(self).spec_redirect() == old(self).spec_redirect(),
    {
        match validate_redirect_port(port) {
            Ok(()) => {},
            Err(e) => {
                proof {
                    self.redirect_log@ = self.redirect_log@.push((port, false));
                }
                return Err(e);
            },
        }
        let p = crate::text::dec_string(port as u64);
        let args = args2("nft-redirect", p.as_str());
        let r = self.run(&args);
        if r.is_ok() {
            self.redirected = Ghost(true);
        }
        proof {
            self.redirect_log@ = self.redirect_log@.push((port, r is Ok));
        }
        r
    }

    /// `nft-clear-redirect`.
    fn nft_clear_redirect(&mut self) -> (r: Result<(), String>) {
        let mut args: Vec<String> = Vec::new();
        args.push(owned("nft-clear-redirect"));
        let r = self.run(&args);
        self.attempts = Ghost(self.attempts@ + 1);
        if r.is_ok() {
            self.redirected = Ghost(false);
        }
        proof {
            self.clear_log@ = self.clear_log@.push(r is Ok);
        }
        r
    }

    /// `nft-set-exclusions <ip,ip,...>`.
    fn nft_set_exclusions(&mut self, ips: &Vec<String>) -> (r: Result<(), String>)
        ensures
            final(self).spec_runs() == old(self).spec_runs().push(
                seq!["nft-set-exclusions"@, comma_joined(ips@.map_values(|a: String| a@))],
            ),
    {
        let joined = join_commas(ips);
        let args = args2("nft-set-exclusions", joined.as_str());
        let r = self.run(&args);
        proof {
            self.exclusion_sets@ = self.exclusion_sets@.push((strings_view(ips@), r is Ok));
        }
        r
    }
}

/// `n` failed clearings.
pub open spec fn failed_clears(n: nat) -> Seq<bool> {
    Seq::new(n, |k: int| false)
}

/// The clearings of a retry that succeeded after `m` failures, fewer than the maximum.
pub open spec fn cleared_after(before: Seq<bool>, after: Seq<bool>) -> bool {
    exists|m: nat|
        m < ABNORMAL_EXIT_CLEAR_MAX_ATTEMPTS && after == before + #[trigger] failed_clears(m).push(true)
}

/// How many times the guard tries to clear the redirection.
pub const ABNORMAL_EXIT_CLEAR_MAX_ATTEMPTS: u32 = 3;

/// Clears the redirection, trying up to `ABNORMAL_EXIT_CLEAR_MAX_ATTEMPTS` times; the last
/// error when every attempt failed.
pub fn clear_redirect_with_retry<H: HelperBackend + ?Sized>(redirect: &mut H) -> (r: Result<(), String>)
    ensures
        r is Ok ==> !final(redirect).spec_redirect(),
        r is Ok ==> old(redirect).spec_clear_attempts() < final(redirect).spec_clear_attempts()
            <= old(redirect).spec_clear_attempts() + ABNORMAL_EXIT_CLEAR_MAX_ATTEMPTS,
        r is Err ==> final(redirect).spec_clear_attempts() == old(redirect).spec_clear_attempts()
            + ABNORMAL_EXIT_CLEAR_MAX_ATTEMPTS,
        r is Ok ==> cleared_after(old(redirect).spec_clear_outcomes(), final(redirect).spec_clear_outcomes()),
        r is Err ==> final(redirect).spec_clear_outcomes() == old(redirect).spec_clear_outcomes()
            + failed_clears(ABNORMAL_EXIT_CLEAR_MAX_ATTEMPTS as nat),
{
    let mut last_error = String::new();
    let mut attempt: u32 = 1;
    while attempt <= ABNORMAL_EXIT_CLEAR_MAX_ATTEMPTS
        invariant
            1 <= attempt <= ABNORMAL_EXIT_CLEAR_MAX_ATTEMPTS + 1,
            redirect.spec_clear_attempts() == old(redirect).spec_clear_attempts() + attempt - 1,
            redirect.spec_clear_outcomes() == old(redirect).spec_clear_outcomes() + failed_clears(
                (attempt - 1) as nat,
            ),
        decreases ABNORMAL_EXIT_CLEAR_MAX_ATTEMPTS + 1 - attempt,
    {
        let ghost o = old(redirect).spec_clear_outcomes();
        match redirect.nft_clear_redirect() {
            Ok(()) => {
                proof {
                    let after = redirect.spec_clear_outcomes();
                    let m = (attempt - 1) as nat;
                    assert(after =~= o + failed_clears(m).push(true));
                }
                return Ok(());
            },
            Err(error) => {
                last_error = error;
                assert(redirect.spec_clear_outcomes() =~= o + failed_clears(attempt as nat));
            },
        }
        attempt += 1;
    }
    Err(last_error)
}

/// The guard's reaction when PolarProxy's process has ended: nothing after a requested
/// stop; otherwise the redirection is cleared (with retries) before anything else and the
/// domain is marked inactive, whether the clearing succeeded or not.
pub fn handle_proxy_exit<H: HelperBackend + ?Sized>(clean_shutdown: bool, active: &mut bool, redirect: &mut H) -> (r:
    Result<(), String>)
    ensures
        clean_shutdown ==> r is Ok && *final(active) == *old(active) && final(redirect).spec_clear_attempts()
            == old(redirect).spec_clear_attempts(),
        !clean_shutdown ==> !*final(active),
        !clean_shutdown && r is Ok ==> !final(redirect).spec_redirect(),
        !clean_shutdown && r is Err ==> final(redirect).spec_clear_attempts() == old(
            redirect,
        ).spec_clear_attempts() + ABNORMAL_EXIT_CLEAR_MAX_ATTEMPTS,
        clean_shutdown ==> final(redirect).spec_clear_outcomes() == old(redirect).spec_clear_outcomes(),
        !clean_shutdown && r is Ok ==> cleared_after(
            old(redirect).spec_clear_outcomes(),
            final(redirect).spec_clear_outcomes(),
        ),
        !clean_shutdown && r is Err ==> final(redirect).spec_clear_outcomes() == old(
            redirect,
        ).spec_clear_outcomes() + failed_clears(ABNORMAL_EXIT_CLEAR_MAX_ATTEMPTS as nat),
{
    if clean_shutdown {
        return Ok(());
    }
    let r = clear_redirect_with_retry(redirect);
    *active = false;
    r
}

/// The guard armed once PolarProxy is confirmed listening and the redirection applied: when
/// the process ends without a requested stop, it clears the redirection (with retries) and
/// marks the domain inactive.
pub struct AbnormalExitGuard {
    /// Set by a requested stop, before the process is asked to end.
    pub clean_shutdown: bool,
    pub active: bool,
}

impl AbnormalExitGuard {
    /// An armed guard: the domain is active and no stop was requested.
    pub fn armed() -> (g: AbnormalExitGuard)
        ensures
            !g.clean_shutdown,
            g.active,
    {
        AbnormalExitGuard { clean_shutdown: false, active: true }
    }

    /// Runs when PolarProxy's process has ended.
    pub fn on_exit<H: HelperBackend + ?Sized>(&mut self, redirect: &mut H) -> (r: Result<(), String>)
        ensures
            final(self).clean_shutdown == old(self).clean_shutdown,
            old(self).clean_shutdown ==> r is Ok && final(self).active == old(self).active
                && final(redirect).spec_clear_attempts() == old(redirect).spec_clear_attempts(),
            !old(self).clean_shutdown ==> !final(self).active,
            !old(self).clean_shutdown && r is Ok ==> !final(redirect).spec_redirect(),
            !old(self).clean_shutdown && r is Err ==> final(redirect).spec_clear_attempts()
                == old(redirect).spec_clear_attempts() + ABNORMAL_EXIT_CLEAR_MAX_ATTEMPTS,
            old(self).clean_shutdown ==> final(redirect).spec_clear_outcomes() == old(
                redirect,
            ).spec_clear_outcomes(),
            !old(self).clean_shutdown && r is Ok ==> cleared_after(
                old(redirect).spec_clear_outcomes(),
                final(redirect).spec_clear_outcomes(),
            ),
            !old(self).clean_shutdown && r is Err ==> final(redirect).spec_clear_outcomes() == old(
                redirect,
            ).spec_clear_outcomes() + failed_clears(ABNORMAL_EXIT_CLEAR_MAX_ATTEMPTS as nat),
    {
        handle_proxy_exit(self.clean_shutdown, &mut self.active, redirect)
    }
}

} // verus!
