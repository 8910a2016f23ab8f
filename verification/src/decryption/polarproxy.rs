//! PolarProxy, the external decrypting proxy: how it is detected and launched, and the guard
//! that applies the redirection of web traffic only once the proxy really listens.

use vstd::prelude::*;

use crate::killswitch::{exec_error, is_exec_error, KillSwitchError, Subsystem};
use crate::text::{dec, owned, parse_unsigned, parse_unsigned_chars, chars_of, push_dec, push_str};

use crate::storage::{CaMetadata, StorageHandle};

use super::helper_backend::HelperBackend;

verus! {

pub const DEFAULT_LISTEN_PORT: u16 = 10443;

pub const DEFAULT_DECRYPTED_PORT: u16 = 10080;

pub const DEFAULT_PCAPOVERIP_PORT: u16 = 10444;

#[derive(Debug, Clone)]
pub struct PolarProxyAvailability {
    pub installed: bool,
    pub reason: Option<String>,
}

/// What `PolarProxy --help` says of the binary: any output proves it runs; no output, or no
/// run at all, means it is unavailable.
pub fn availability_from_help(ran: Result<bool, String>) -> (a: PolarProxyAvailability)
    ensures
        a.installed == (ran matches Ok(true)),
        match ran {
            Ok(true) => a.reason is None,
            Ok(false) => a.reason matches Some(m) && m@ == "PolarProxy --help n'a produit aucune sortie"@,
            Err(e) => a.reason matches Some(m) && m@ == "PolarProxy introuvable: "@ + e@,
        },
{
    match ran {
        Ok(true) => PolarProxyAvailability { installed: true, reason: None },
        Ok(false) => PolarProxyAvailability {
            installed: false,
            reason: Some(owned("PolarProxy --help n'a produit aucune sortie")),
        },
        Err(e) => {
            let mut m = owned("PolarProxy introuvable: ");
            push_str(&mut m, e.as_str());
            PolarProxyAvailability { installed: false, reason: Some(m) }
        },
    }
}

/// How PolarProxy is launched: the CA (PEM files), the ports and the session log.
pub struct PolarProxyConfig {
    pub ca_cert_path: String,
    pub ca_key_path: String,
    pub listen_port: u16,
    pub decrypted_port: u16,
    pub pcapoverip_port: u16,
    pub flowlog_path: String,
}

/// The listening port: the configured value when it reads as a port, else the default.
pub open spec fn listen_port_of(value: Option<Seq<char>>) -> u16 {
    match value {
        Some(v) => match parse_unsigned(v, 65535) {
            Some(p) => p as u16,
            None => DEFAULT_LISTEN_PORT,
        },
        None => DEFAULT_LISTEN_PORT,
    }
}

pub fn listen_port(value: Option<&str>) -> (p: u16)
    ensures
        p == listen_port_of(
            match value {
                Some(v) => Some(v@),
                None => None,
            },
        ),
{
    match value {
        Some(v) => {
            let chars = chars_of(v);
            assert(chars@.subrange(0, chars@.len() as int) =~= chars@);
            match parse_unsigned_chars(&chars, 0, chars.len(), 65535) {
                Some(p) => p as u16,
                None => DEFAULT_LISTEN_PORT,
            }
        },
        None => DEFAULT_LISTEN_PORT,
    }
}

/// The command line of PolarProxy: its ports (the original destination port is 443), the CA
/// as a PKCS12 file with its password, the session log, the PCAP-over-IP port, a pass-through
/// after one failed handshake for five minutes, a five-second TLS timeout, and verbosity.
pub open spec fn polarproxy_command(
    listen: u16,
    decrypted: u16,
    pcapoverip: u16,
    flowlog: Seq<char>,
    pkcs12: Seq<char>,
    password: Seq<char>,
) -> Seq<Seq<char>> {
    seq![
        "-p"@,
        dec(listen as nat) + ","@ + dec(decrypted as nat) + ",443"@,
        "--cacert"@,
        "load:"@ + pkcs12 + ":"@ + password,
        "-f"@,
        flowlog,
        "--pcapoverip"@,
        dec(pcapoverip as nat),
        "--bypassonfail"@,
        "1:300"@,
        "--tlstimeout"@,
        "5"@,
        "-v"@,
    ]
}

pub fn polarproxy_args(config: &PolarProxyConfig, pkcs12_path: &str, password: &str) -> (r: Vec<String>)
    ensures
        r@.map_values(|a: String| a@) == polarproxy_command(
            config.listen_port,
            config.decrypted_port,
            config.pcapoverip_port,
            config.flowlog_path@,
            pkcs12_path@,
            password@,
        ),
{
    let mut ports = String::new();
    push_dec(&mut ports, config.listen_port as u64);
    push_str(&mut ports, ",");
    push_dec(&mut ports, config.decrypted_port as u64);
    push_str(&mut ports, ",443");
    let mut ca = owned("load:");
    push_str(&mut ca, pkcs12_path);
    push_str(&mut ca, ":");
    push_str(&mut ca, password);
    let mut pcap = String::new();
    push_dec(&mut pcap, config.pcapoverip_port as u64);
    let mut r: Vec<String> = Vec::new();
    r.push(owned("-p"));
    r.push(ports);
    r.push(owned("--cacert"));
    r.push(ca);
    r.push(owned("-f"));
    r.push(config.flowlog_path.clone());
    r.push(owned("--pcapoverip"));
    r.push(pcap);
    r.push(owned("--bypassonfail"));
    r.push(owned("1:300"));
    r.push(owned("--tlstimeout"));
    r.push(owned("5"));
    r.push(owned("-v"));
    assert(r@.map_values(|a: String| a@) =~= polarproxy_command(
        config.listen_port,
        config.decrypted_port,
        config.pcapoverip_port,
        config.flowlog_path@,
        pkcs12_path@,
        password@,
    ));
    r
}

/// A launched PolarProxy process, as the guard drives it.
pub trait PolarProxyController {
    /// Whether the proxy was confirmed listening on its MITM port.
    spec fn spec_confirmed(&self) -> bool;

    /// Whether a stop of the process was requested.
    spec fn spec_stop_requested(&self) -> bool;

    /// Whether a kill of the process was requested.
    spec fn spec_kill_requested(&self) -> bool;

    /// Probes the listening port (the MITM port, never the diagnostic one) until it answers
    /// or the timeout passes.
    fn confirm_listening(&mut self, timeout_ms: u64) -> (b: bool)
        ensures
            b ==> final(self).spec_confirmed(),
            final(self).spec_stop_requested() == old(self).spec_stop_requested(),
    ;

    fn request_stop(&mut self)
        ensures
            final(self).spec_stop_requested(),
            final(self).spec_confirmed() == old(self).spec_confirmed(),
    ;

    fn request_kill(&mut self)
        ensures
            final(self).spec_kill_requested(),
            final(self).spec_confirmed() == old(self).spec_confirmed(),
            final(self).spec_stop_requested() == old(self).spec_stop_requested(),
    ;
}

/// How long (milliseconds) PolarProxy has to start listening.
pub const CONFIRM_LISTENING_TIMEOUT_MS: u64 = 5000;

/// After a launch: the redirection is applied only once PolarProxy is confirmed listening;
/// an unconfirmed proxy, or a redirection that fails, is asked to stop.
pub fn confirm_then_redirect<C: PolarProxyController + ?Sized, H: HelperBackend + ?Sized>(
    controller: &mut C,
    redirect: &mut H,
    listen_port: u16,
) -> (r: Result<(), KillSwitchError>)
    ensures
        final(redirect).spec_redirect() != old(redirect).spec_redirect() ==> final(controller).spec_confirmed(),
        r is Ok ==> final(controller).spec_confirmed() && final(redirect).spec_redirect(),
        r is Err ==> final(controller).spec_stop_requested(),
        r matches Err(e) ==> e matches KillSwitchError::SubsystemExec { subsystem, reason: _ }
            && subsystem@ == "polarproxy"@,
        !final(controller).spec_confirmed() ==> (r matches Err(e) && is_exec_error(
            e,
            "polarproxy"@,
            "PolarProxy non confirmé à l'écoute"@,
        )),
        final(redirect).spec_redirect_requests() == old(redirect).spec_redirect_requests() || (
        final(controller).spec_confirmed() && final(redirect).spec_redirect_requests() == old(
            redirect,
        ).spec_redirect_requests().push((listen_port, r is Ok))),
        r is Ok ==> final(redirect).spec_redirect_requests() == old(
            redirect,
        ).spec_redirect_requests().push((listen_port, true)),
{
    if !controller.confirm_listening(CONFIRM_LISTENING_TIMEOUT_MS) {
        controller.request_stop();
        return Err(exec_error("polarproxy", "PolarProxy non confirmé à l'écoute"));
    }
    match redirect.nft_redirect(listen_port) {
        Ok(()) => Ok(()),
        Err(error) => {
            controller.request_stop();
            Err(exec_error("polarproxy", error.as_str()))
        },
    }
}

/// A stop in the order that never leaves traffic redirected to a dead proxy: the
/// redirection is cleared first, then the process is asked to stop. The outcome of the
/// clearing.
pub fn stop_in_order<C: PolarProxyController + ?Sized, H: HelperBackend + ?Sized>(
    controller: &mut C,
    redirect: &mut H,
) -> (r: Result<(), String>)
    ensures
        final(controller).spec_stop_requested(),
        r is Ok ==> !final(redirect).spec_redirect(),
{
    let r = redirect.nft_clear_redirect();
    controller.request_stop();
    r
}

/// Waits for the end of a launched PolarProxy (it owns the process).
pub trait PolarProxyWatchdog {
    fn wait_exit(&mut self);
}

/// A launched PolarProxy: the handle that probes and stops it, apart from the one that waits
/// for its end, so that a stop never waits behind the watchdog.
pub struct SpawnedPolarProxy<C: PolarProxyController, W: PolarProxyWatchdog> {
    pub controller: C,
    pub watchdog: W,
}

/// The value of a launch configuration: CA certificate and key paths, listening, decrypted
/// and PCAP-over-IP ports, session log.
pub open spec fn config_view(c: PolarProxyConfig) -> (Seq<char>, Seq<char>, u16, u16, u16, Seq<char>) {
    (c.ca_cert_path@, c.ca_key_path@, c.listen_port, c.decrypted_port, c.pcapoverip_port, c.flowlog_path@)
}

/// The launch of PolarProxy with the recorded CA `ca`: its certificate and key, the listening
/// port, the default decrypted and PCAP-over-IP ports, and the session log.
pub open spec fn launch_config(ca: CaMetadata, listen_port: u16, flowlog: Seq<char>) -> (
    Seq<char>,
    Seq<char>,
    u16,
    u16,
    u16,
    Seq<char>,
) {
    (ca.cert_path@, ca.key_path@, listen_port, DEFAULT_DECRYPTED_PORT, DEFAULT_PCAPOVERIP_PORT, flowlog)
}

/// Finds and launches PolarProxy on the system (the application's side): a launch gives the
/// process and the handle that waits for its end.
pub trait PolarProxyBackend {
    type Process: ProxyProcess;

    type Watchdog: PolarProxyWatchdog;

    fn detect(&self) -> PolarProxyAvailability;

    fn spawn(&mut self, config: &PolarProxyConfig) -> Result<(Self::Process, Self::Watchdog), String>;
}

/// PolarProxy as the domain drives it: its detection, its launches and the probes of the
/// launched proxy, each recorded with its answer.
pub trait PolarProxyLauncher {
    type Controller: PolarProxyController;

    type Watchdog: PolarProxyWatchdog;

    /// Whether each detection found PolarProxy installed, in order.
    spec fn spec_detections(&self) -> Seq<bool>;

    /// The configurations launched, in order, each with whether the launch succeeded.
    spec fn spec_launches(&self) -> Seq<((Seq<char>, Seq<char>, u16, u16, u16, Seq<char>), bool)>;

    /// The answers of the probes of launched proxies, in order.
    spec fn spec_probes(&self) -> Seq<bool>;

    fn detect(&mut self) -> (a: PolarProxyAvailability)
        ensures
            final(self).spec_detections() == old(self).spec_detections().push(a.installed),
            final(self).spec_launches() == old(self).spec_launches(),
            final(self).spec_probes() == old(self).spec_probes(),
    ;

    /// A launched proxy is not yet confirmed listening.
    fn spawn(&mut self, config: &PolarProxyConfig) -> (r: Result<
        SpawnedPolarProxy<Self::Controller, Self::Watchdog>,
        String,
    >)
        ensures
            final(self).spec_launches() == old(self).spec_launches().push((config_view(*config), r is Ok)),
            final(self).spec_detections() == old(self).spec_detections(),
            final(self).spec_probes() == old(self).spec_probes(),
            r matches Ok(s) ==> !s.controller.spec_confirmed() && !s.controller.spec_stop_requested(),
    ;

    /// Probes whether a launched proxy listens, within the timeout.
    fn confirm(&mut self, controller: &mut Self::Controller, timeout_ms: u64) -> (b: bool)
        ensures
            final(self).spec_probes() == old(self).spec_probes().push(b),
            final(self).spec_detections() == old(self).spec_detections(),
            final(self).spec_launches() == old(self).spec_launches(),
            final(controller).spec_confirmed() == (old(controller).spec_confirmed() || b),
            final(controller).spec_stop_requested() == old(controller).spec_stop_requested(),
    ;
}

/// PolarProxy on the system through the application's backend, each detection, launch and
/// probe recorded.
pub struct SystemPolarProxy<B: PolarProxyBackend> {
    backend: B,
    detections: Ghost<Seq<bool>>,
    launches: Ghost<Seq<((Seq<char>, Seq<char>, u16, u16, u16, Seq<char>), bool)>>,
    probes: Ghost<Seq<bool>>,
}

impl<B: PolarProxyBackend> SystemPolarProxy<B> {
    pub closed spec fn spec_backend(&self) -> B {
        self.backend
    }

    pub fn new(backend: B) -> (s: SystemPolarProxy<B>)
        ensures
            s.spec_backend() == backend,
            s.spec_detections().len() == 0,
            s.spec_launches().len() == 0,
            s.spec_probes().len() == 0,
    {
        SystemPolarProxy {
            backend,
            detections: Ghost(Seq::empty()),
            launches: Ghost(Seq::empty()),
            probes: Ghost(Seq::empty()),
        }
    }
}

impl<B: PolarProxyBackend> PolarProxyLauncher for SystemPolarProxy<B> {
    type Controller = ProcessController<B::Process>;

    type Watchdog = B::Watchdog;

    closed spec fn spec_detections(&self) -> Seq<bool> {
        self.detections@
    }

    closed spec fn spec_launches(&self) -> Seq<((Seq<char>, Seq<char>, u16, u16, u16, Seq<char>), bool)> {
        self.launches@
    }

    closed spec fn spec_probes(&self) -> Seq<bool> {
        self.probes@
    }

    fn detect(&mut self) -> (a: PolarProxyAvailability) {
        let a = self.backend.detect();
        proof {
            self.detections@ = self.detections@.push(a.installed);
        }
        a
    }

    fn spawn(&mut self, config: &PolarProxyConfig) -> (r: Result<
        SpawnedPolarProxy<ProcessController<B::Process>, B::Watchdog>,
        String,
    >) {
        let r = match self.backend.spawn(config) {
            Ok((process, watchdog)) => Ok(
                SpawnedPolarProxy { controller: ProcessController::new(process, config.listen_port), watchdog },
            ),
            Err(e) => Err(e),
        };
        proof {
            self.launches@ = self.launches@.push((config_view(*config), r is Ok));
        }
        r
    }

    fn confirm(&mut self, controller: &mut ProcessController<B::Process>, timeout_ms: u64) -> (b: bool) {
        let b = controller.confirm_listening(timeout_ms);
        proof {
            self.probes@ = self.probes@.push(b);
        }
        b
    }
}

/// What a start of PolarProxy does with the recorded CA `ca` (if any), from the launcher `b0`
/// and the helper `h0` to `b1` and `h1`, with the outcome `r`: with no CA nothing is asked;
/// otherwise PolarProxy is detected, and when installed it is launched with the CA, the
/// listening port and the session log; a launched proxy is probed, and only a proxy that
/// answered is redirected to. Nothing is launched, and nothing is returned, exactly when
/// there is no CA or PolarProxy is not installed.
pub open spec fn polarproxy_started<B: PolarProxyLauncher, H: HelperBackend>(
    ca: Option<CaMetadata>,
    listen_port: u16,
    flowlog: Seq<char>,
    b0: B,
    b1: B,
    h0: H,
    h1: H,
    r: Result<Option<SpawnedPolarProxy<B::Controller, B::Watchdog>>, KillSwitchError>,
) -> bool {
    let d0 = b0.spec_detections();
    let l0 = b0.spec_launches();
    let p0 = b0.spec_probes();
    let q0 = h0.spec_redirect_requests();
    let installed = b1.spec_detections().last();
    &&& h1.spec_redirect() != h0.spec_redirect() ==> b1.spec_probes() == p0.push(true)
    &&& match ca {
        None => (r matches Ok(None) && b1.spec_detections() == d0 && b1.spec_launches() == l0
            && b1.spec_probes() == p0 && h1.spec_redirect_requests() == q0),
        Some(m) => {
            &&& b1.spec_detections().len() == d0.len() + 1
            &&& b1.spec_detections().drop_last() == d0
            &&& !installed ==> (r matches Ok(None) && b1.spec_launches() == l0 && b1.spec_probes()
                == p0 && h1.spec_redirect_requests() == q0)
            &&& installed ==> {
                let launched = b1.spec_launches().last().1;
                &&& b1.spec_launches() == l0.push((launch_config(m, listen_port, flowlog), launched))
                &&& !launched ==> r is Err && b1.spec_probes() == p0 && h1.spec_redirect_requests() == q0
                &&& launched ==> {
                    let answered = b1.spec_probes().last();
                    &&& b1.spec_probes() == p0.push(answered)
                    &&& !answered ==> r is Err && h1.spec_redirect_requests() == q0
                    &&& answered ==> h1.spec_redirect_requests() == q0.push((listen_port, r is Ok))
                }
            }
        },
    }
    &&& r matches Ok(Some(s)) ==> s.controller.spec_confirmed() && h1.spec_redirect()
    &&& r matches Err(e) ==> (e matches KillSwitchError::SubsystemExec { subsystem, reason: _ }
        && subsystem@ == "polarproxy"@)
}

/// Starts PolarProxy when it can be: with no recorded CA or no PolarProxy installed, nothing
/// is launched and nothing redirected (a degraded state, not an error); a launch that fails,
/// or a proxy never confirmed listening, is an error of the domain and leaves the traffic
/// unredirected. The redirection is applied only to a proxy confirmed listening; a refused
/// redirection stops the proxy again.
pub fn try_start_polarproxy<B: PolarProxyLauncher, H: HelperBackend>(
    backend: &mut B,
    storage: &StorageHandle,
    redirect: &mut H,
    listen_port: u16,
    flowlog_path: &str,
) -> (r: Result<Option<SpawnedPolarProxy<B::Controller, B::Watchdog>>, KillSwitchError>)
    ensures
        polarproxy_started(
            storage.ca,
            listen_port,
            flowlog_path@,
            *old(backend),
            *final(backend),
            *old(redirect),
            *final(redirect),
            r,
        ),
{
    let ca = match &storage.ca {
        Some(ca) => ca,
        None => {
            return Ok(None);
        },
    };
    let availability = backend.detect();
    assert(backend.spec_detections().drop_last() =~= old(backend).spec_detections());
    if !availability.installed {
        return Ok(None);
    }
    let config = PolarProxyConfig {
        ca_cert_path: owned(ca.cert_path.as_str()),
        ca_key_path: owned(ca.key_path.as_str()),
        listen_port,
        decrypted_port: DEFAULT_DECRYPTED_PORT,
        pcapoverip_port: DEFAULT_PCAPOVERIP_PORT,
        flowlog_path: owned(flowlog_path),
    };
    assert(config_view(config) == launch_config(*ca, listen_port, flowlog_path@));
    let spawned = match backend.spawn(&config) {
        Ok(s) => s,
        Err(error) => {
            return Err(exec_error("polarproxy", error.as_str()));
        },
    };
    let SpawnedPolarProxy { controller, watchdog } = spawned;
    let mut controller = controller;
    if !backend.confirm(&mut controller, CONFIRM_LISTENING_TIMEOUT_MS) {
        controller.request_stop();
        return Err(exec_error("polarproxy", "PolarProxy non confirmé à l'écoute"));
    }
    match redirect.nft_redirect(listen_port) {
        Ok(()) => Ok(Some(SpawnedPolarProxy { controller, watchdog })),
        Err(error) => {
            controller.request_stop();
            Err(exec_error("polarproxy", error.as_str()))
        },
    }
}

/// A launched PolarProxy process on the system: a probe of its MITM port, and signals.
pub trait ProxyProcess {
    /// Whether the listening port accepts a connection within the timeout.
    fn probe_listening(&mut self, listen_port: u16, timeout_ms: u64) -> bool;

    fn signal_stop(&mut self);

    fn signal_kill(&mut self);
}

/// The controller of a process on the system: it records what the probe confirmed and
/// whether a stop was requested.
pub struct ProcessController<P: ProxyProcess> {
    process: P,
    listen_port: u16,
    confirmed: bool,
    stop_requested: bool,
    kill_requested: Ghost<bool>,
    probes: Ghost<Seq<(u16, u64)>>,
}

impl<P: ProxyProcess> ProcessController<P> {
    /// The process driven.
    pub closed spec fn spec_process(&self) -> P {
        self.process
    }

    /// The MITM port given at launch.
    pub closed spec fn spec_listen_port(&self) -> u16 {
        self.listen_port
    }

    /// The probes made, each with the port probed and its timeout.
    pub closed spec fn spec_probes(&self) -> Seq<(u16, u64)> {
        self.probes@
    }

    pub fn new(process: P, listen_port: u16) -> (c: ProcessController<P>)
        ensures
            !c.spec_confirmed(),
            !c.spec_stop_requested(),
            !c.spec_kill_requested(),
            c.spec_process() == process,
            c.spec_listen_port() == listen_port,
            c.spec_probes().len() == 0,
    {
        ProcessController {
            process,
            listen_port,
            confirmed: false,
            stop_requested: false,
            kill_requested: Ghost(false),
            probes: Ghost(Seq::empty()),
        }
    }

    pub fn process(&self) -> (r: &P)
        ensures
            *r == self.spec_process(),
    {
        &self.process
    }
}

impl<P: ProxyProcess> PolarProxyController for ProcessController<P> {
    closed spec fn spec_confirmed(&self) -> bool {
        self.confirmed
    }

    closed spec fn spec_stop_requested(&self) -> bool {
        self.stop_requested
    }

    closed spec fn spec_kill_requested(&self) -> bool {
        self.kill_requested@
    }

    /// Probes the MITM port given at launch, never the diagnostic one.
    fn confirm_listening(&mut self, timeout_ms: u64) -> (b: bool)
        ensures
            final(self).spec_probes() == old(self).spec_probes().push(
                (old(self).spec_listen_port(), timeout_ms),
            ),
            final(self).spec_listen_port() == old(self).spec_listen_port(),
            final(self).spec_confirmed() == (old(self).spec_confirmed() || b),
    {
        proof {
            self.probes@ = self.probes@.push((self.listen_port, timeout_ms));
        }
        let b = self.process.probe_listening(self.listen_port, timeout_ms);
        if b {
            self.confirmed = true;
        }
        b
    }

    fn request_stop(&mut self) {
        self.process.signal_stop();
        self.stop_requested = true;
    }

    fn request_kill(&mut self) {
        self.process.signal_kill();
        proof {
            self.kill_requested@ = true;
        }
    }
}

/// A proxy that listens or never does, and remembers what it was asked.
pub struct FakeProxyController {
    pub listens: bool,
    pub confirmed: bool,
    pub stop_requested: bool,
    pub killed: bool,
}

impl FakeProxyController {
    pub fn new(listens: bool) -> (c: FakeProxyController)
        ensures
            c.listens == listens,
            !c.confirmed,
            !c.stop_requested,
            !c.killed,
    {
        FakeProxyController { listens, confirmed: false, stop_requested: false, killed: false }
    }
}

impl PolarProxyController for FakeProxyController {
    closed spec fn spec_confirmed(&self) -> bool {
        self.confirmed
    }

    closed spec fn spec_stop_requested(&self) -> bool {
        self.stop_requested
    }

    closed spec fn spec_kill_requested(&self) -> bool {
        self.killed
    }

    /// Answers whether the proxy listens; a proxy that listens is confirmed.
    fn confirm_listening(&mut self, timeout_ms: u64) -> (b: bool)
        ensures
            b == old(self).listens,
            final(self).listens == old(self).listens,
            final(self).confirmed == (old(self).confirmed || old(self).listens),
            final(self).stop_requested == old(self).stop_requested,
            final(self).killed == old(self).killed,
    {
        if self.listens {
            self.confirmed = true;
        }
        self.listens
    }

    fn request_stop(&mut self) {
        self.stop_requested = true;
    }

    fn request_kill(&mut self)
        ensures
            final(self).killed,
            final(self).listens == old(self).listens,
            final(self).confirmed == old(self).confirmed,
            final(self).stop_requested == old(self).stop_requested,
    {
        self.killed = true;
    }
}

/// A watchdog whose process has already ended.
pub struct FakeWatchdog {
    pub waited: bool,
}

impl PolarProxyWatchdog for FakeWatchdog {
    fn wait_exit(&mut self)
        ensures
            final(self).waited,
    {
        self.waited = true;
    }
}

/// A PolarProxy that launches nothing: installed or not, listening or never, its launch can be
/// made to fail.
pub struct FakePolarProxyBackend {
    pub installed: bool,
    pub listens: bool,
    pub fail_spawn: bool,
    pub spawned: Vec<PolarProxyConfig>,
    pub detections: Ghost<Seq<bool>>,
    pub launches: Ghost<Seq<((Seq<char>, Seq<char>, u16, u16, u16, Seq<char>), bool)>>,
    pub probes: Ghost<Seq<bool>>,
}

impl FakePolarProxyBackend {
    pub fn new(installed: bool, listens: bool) -> (b: FakePolarProxyBackend)
        ensures
            b.installed == installed,
            b.listens == listens,
            !b.fail_spawn,
            b.spawned@.len() == 0,
            b.spec_detections().len() == 0,
            b.spec_launches().len() == 0,
            b.spec_probes().len() == 0,
    {
        FakePolarProxyBackend {
            installed,
            listens,
            fail_spawn: false,
            spawned: Vec::new(),
            detections: Ghost(Seq::empty()),
            launches: Ghost(Seq::empty()),
            probes: Ghost(Seq::empty()),
        }
    }
}

impl PolarProxyLauncher for FakePolarProxyBackend {
    type Controller = FakeProxyController;

    type Watchdog = FakeWatchdog;

    closed spec fn spec_detections(&self) -> Seq<bool> {
        self.detections@
    }

    closed spec fn spec_launches(&self) -> Seq<((Seq<char>, Seq<char>, u16, u16, u16, Seq<char>), bool)> {
        self.launches@
    }

    closed spec fn spec_probes(&self) -> Seq<bool> {
        self.probes@
    }

    /// Installed as told; the reason of an absent one is the fake's.
    fn detect(&mut self) -> (a: PolarProxyAvailability)
        ensures
            a.installed == old(self).installed,
            old(self).installed ==> a.reason is None,
            !old(self).installed ==> (a.reason matches Some(m) && m@ == "PolarProxy introuvable: "@
                + "PolarProxy absent (fake)"@),
            final(self).installed == old(self).installed,
            final(self).listens == old(self).listens,
            final(self).fail_spawn == old(self).fail_spawn,
            final(self).spawned@ == old(self).spawned@,
    {
        let a = availability_from_help(
            if self.installed {
                Ok(true)
            } else {
                Err(owned("PolarProxy absent (fake)"))
            },
        );
        proof {
            self.detections@ = self.detections@.push(a.installed);
        }
        a
    }

    /// Refused when told to fail; otherwise the configuration is recorded and the launched
    /// proxy listens as told.
    fn spawn(&mut self, config: &PolarProxyConfig) -> (r: Result<SpawnedPolarProxy<FakeProxyController, FakeWatchdog>, String>)
        ensures
            r is Ok <==> !old(self).fail_spawn,
            r matches Err(m) ==> m@ == "spawn PolarProxy refusé (fake)"@,
            r is Err ==> final(self).spawned@ == old(self).spawned@,
            r matches Ok(s) ==> s.controller.listens == old(self).listens && !s.controller.confirmed
                && !s.controller.stop_requested && !s.controller.killed && !s.watchdog.waited,
            r is Ok ==> final(self).spawned@.len() == old(self).spawned@.len() + 1
                && final(self).spawned@.drop_last() == old(self).spawned@
                && config_view(final(self).spawned@.last()) == config_view(*config),
            final(self).installed == old(self).installed,
            final(self).listens == old(self).listens,
            final(self).fail_spawn == old(self).fail_spawn,
    {
        if self.fail_spawn {
            proof {
                self.launches@ = self.launches@.push((config_view(*config), false));
            }
            return Err(owned("spawn PolarProxy refusé (fake)"));
        }
        self.spawned.push(
            PolarProxyConfig {
                ca_cert_path: owned(config.ca_cert_path.as_str()),
                ca_key_path: owned(config.ca_key_path.as_str()),
                listen_port: config.listen_port,
                decrypted_port: config.decrypted_port,
                pcapoverip_port: config.pcapoverip_port,
                flowlog_path: owned(config.flowlog_path.as_str()),
            },
        );
        proof {
            self.launches@ = self.launches@.push((config_view(*config), true));
        }
        Ok(SpawnedPolarProxy { controller: FakeProxyController::new(self.listens), watchdog: FakeWatchdog { waited: false } })
    }

    fn confirm(&mut self, controller: &mut FakeProxyController, timeout_ms: u64) -> (b: bool) {
        let b = controller.confirm_listening(timeout_ms);
        proof {
            self.probes@ = self.probes@.push(b);
        }
        b
    }
}

/// A PolarProxy domain that launches nothing.
pub struct FakePolarProxySubsystem {
    active: bool,
    calls: Ghost<Seq<(bool, bool)>>,
}

impl FakePolarProxySubsystem {
    pub fn new() -> (s: FakePolarProxySubsystem)
        ensures
            s.spec_name() == "polarproxy"@,
            !s.spec_active(),
    {
        FakePolarProxySubsystem { active: false, calls: Ghost(Seq::empty()) }
    }
}

impl Subsystem for FakePolarProxySubsystem {
    closed spec fn spec_name(&self) -> Seq<char> {
        "polarproxy"@
    }

    closed spec fn spec_active(&self) -> bool {
        self.active
    }

    closed spec fn spec_calls(&self) -> Seq<(bool, bool)> {
        self.calls@
    }

    closed spec fn spec_reliable(&self) -> bool {
        true
    }

    fn name(&self) -> (n: &'static str) {
        "polarproxy"
    }

    fn start(&mut self) -> (r: Result<(), KillSwitchError>)
        ensures
            r is Ok,
    {
        self.active = true;
        proof {
            self.calls@ = self.calls@.push((true, true));
        }
        Ok(())
    }

    fn stop(&mut self) -> (r: Result<(), KillSwitchError>)
        ensures
            r is Ok,
    {
        self.active = false;
        proof {
            self.calls@ = self.calls@.push((false, true));
        }
        Ok(())
    }

    fn is_active(&self) -> (b: bool) {
        self.active
    }
}

} // verus!
