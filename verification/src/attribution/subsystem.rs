//! The attribution domain as the kill switch drives it: on start, the server that the daemon
//! reports to is launched, then the daemon is pointed at it (its original address saved
//! first); on stop, the daemon is pointed back, then the server is shut down. A failed
//! restoration is reported, never silent, and the domain is stopped all the same.

use vstd::prelude::*;

use crate::killswitch::{exec_error, KillSwitchError, Subsystem};
use crate::storage::attribution::origin_rows;
use crate::storage::StorageHandle;

use super::cache::{cache_store, keep_alive, ProcessCache};
use super::connection::{connection_tuple, display_name, handle_connection, usable, DaemonConnection};
use super::daemon_config::{reconfigure_daemon, restore_daemon, DaemonConfigurator, DaemonDetection};
use super::desktop::{names_lookup, AppNameCache};
use super::event::{socket_uri, AttributionEvent};

verus! {

/// The server that the daemon reports its connections to, on a UNIX socket.
pub trait AttributionServer {
    /// The starts, in order, each with its socket path and whether it succeeded, and the
    /// shutdowns (nothing).
    spec fn spec_log(&self) -> Seq<Option<(Seq<char>, bool)>>;

    /// Starts serving on `socket_path`; the error says why the server could not start.
    fn start(&mut self, socket_path: &str) -> (r: Result<(), String>)
        ensures
            final(self).spec_log() == old(self).spec_log().push(Some((socket_path@, r is Ok))),
    ;

    /// Stops serving.
    fn shutdown(&mut self)
        ensures
            final(self).spec_log() == old(self).spec_log().push(None),
    ;
}

/// A server that serves nothing: it records the sockets it was started on and its
/// shutdowns, and can be told to refuse to start.
pub struct FakeAttributionServer {
    pub running: bool,
    pub refuse: bool,
    pub shutdowns: usize,
    pub paths: Vec<String>,
    pub log: Ghost<Seq<Option<(Seq<char>, bool)>>>,
}

impl FakeAttributionServer {
    pub fn new() -> (f: FakeAttributionServer)
        ensures
            !f.running,
            !f.refuse,
            f.shutdowns == 0,
            f.paths@.len() == 0,
            f.spec_log().len() == 0,
    {
        FakeAttributionServer { running: false, refuse: false, shutdowns: 0, paths: Vec::new(), log: Ghost(Seq::empty()) }
    }
}

impl AttributionServer for FakeAttributionServer {
    closed spec fn spec_log(&self) -> Seq<Option<(Seq<char>, bool)>> {
        self.log@
    }

    /// Refused when told to; otherwise it runs on `socket_path`, which is recorded.
    fn start(&mut self, socket_path: &str) -> (r: Result<(), String>)
        ensures
            r is Ok <==> !old(self).refuse,
            r matches Err(m) ==> m@ == "socket déjà utilisé"@,
            r is Ok ==> final(self).running && final(self).paths@.map_values(|p: String| p@) == old(
                self,
            ).paths@.map_values(|p: String| p@).push(socket_path@),
            r is Err ==> final(self).running == old(self).running && final(self).paths@ == old(
                self,
            ).paths@,
            final(self).refuse == old(self).refuse,
            final(self).shutdowns == old(self).shutdowns,
    {
        if self.refuse {
            proof {
                self.log@ = self.log@.push(Some((socket_path@, false)));
            }
            return Err(crate::text::owned("socket déjà utilisé"));
        }
        proof {
            self.log@ = self.log@.push(Some((socket_path@, true)));
        }
        let ghost before = self.paths@;
        self.paths.push(crate::text::owned(socket_path));
        assert(self.paths@.map_values(|p: String| p@) =~= before.map_values(|p: String| p@).push(
            socket_path@,
        ));
        self.running = true;
        Ok(())
    }

    /// It no longer runs; the shutdown is counted.
    fn shutdown(&mut self)
        ensures
            !final(self).running,
            old(self).shutdowns < usize::MAX ==> final(self).shutdowns == old(self).shutdowns + 1,
            final(self).refuse == old(self).refuse,
            final(self).paths@ == old(self).paths@,
    {
        proof {
            self.log@ = self.log@.push(None);
        }
        self.running = false;
        if self.shutdowns < usize::MAX {
            self.shutdowns = self.shutdowns + 1;
        }
    }
}

/// The saved original addresses after a detection: the address it found, if any, is added.
pub open spec fn origins_after(origins: Seq<Seq<char>>, d: DaemonDetection) -> Seq<Seq<char>> {
    match d.current_address {
        Some(a) => origins.push(a@),
        None => origins,
    }
}

/// The process cache of the domain; it stays well formed.
struct LiveCache {
    cache: ProcessCache,
}

impl LiveCache {
    #[verifier::type_invariant]
    spec fn inv(self) -> bool {
        self.cache.wf()
    }

    closed spec fn entries(self) -> Seq<(u32, u64, Seq<char>)> {
        self.cache.entries()
    }

    fn new() -> (c: LiveCache)
        ensures
            c.entries().len() == 0,
    {
        LiveCache { cache: ProcessCache::new() }
    }

    fn len(&self) -> (n: usize)
        ensures
            n == self.entries().len(),
    {
        self.cache.len()
    }

    fn record(
        &mut self,
        names: &AppNameCache,
        conn: &DaemonConnection,
        start_time: Option<u64>,
        now_ms: u128,
    ) -> (r: Option<(AttributionEvent, bool)>)
        requires
            names.wf(),
        ensures
            !usable(*conn, start_time) ==> r is None && final(self).entries() == old(self).entries(),
            usable(*conn, start_time) ==> (r matches Some((e, pending)) && e.pid == conn.pid
                && e.exe_path@ == conn.exe_path@ && e.app_name@ == display_name(
                names.entries(),
                conn.exe_path@,
            ) && pending == (names_lookup(names.entries(), conn.exe_path@) is None) && (
            e.five_tuple matches Some(t) && t@ == connection_tuple(*conn)) && e.timestamp_unix_ms
                == now_ms && final(self).entries() == cache_store(
                old(self).entries(),
                conn.pid,
                start_time->0,
                conn.exe_path@,
            )),
    {
        proof {
            use_type_invariant(&*self);
        }
        let mut cache = ProcessCache::new();
        std::mem::swap(&mut cache, &mut self.cache);
        let r = handle_connection(&mut cache, names, conn, start_time, now_ms);
        self.cache = cache;
        r
    }

    fn evict_dead(&mut self)
        ensures
            exists|alive: Seq<bool>|
                alive.len() == old(self).entries().len() && #[trigger] keep_alive(
                    old(self).entries(),
                    alive,
                ) == final(self).entries(),
            final(self).entries().len() <= old(self).entries().len(),
            forall|k: int|
                0 <= k < final(self).entries().len() ==> old(self).entries().contains(
                    #[trigger] final(self).entries()[k],
                ),
    {
        proof {
            use_type_invariant(&*self);
        }
        let ghost e0 = self.cache.entries();
        let mut cache = ProcessCache::new();
        std::mem::swap(&mut cache, &mut self.cache);
        cache.evict_dead();
        proof {
            let alive = choose|alive: Seq<bool>|
                alive.len() == e0.len() && #[trigger] keep_alive(e0, alive) == cache.entries();
            assert(keep_alive(e0, alive) == cache.entries());
            assert(alive.len() == e0.len());
        }
        self.cache = cache;
        assert(self.entries() == cache.entries());
        assert(e0 == old(self).entries());
    }
}

/// The attribution domain: the server, the daemon's configuration, the saved original
/// addresses, and the process cache that the reported connections fill.
pub struct AttributionSubsystem<S: AttributionServer, C: DaemonConfigurator> {
    active: bool,
    serving: bool,
    server: S,
    configurator: C,
    storage: StorageHandle,
    cache: LiveCache,
    socket_path: String,
    last_detection: Option<DaemonDetection>,
    calls: Ghost<Seq<(bool, bool)>>,
}

impl<S: AttributionServer, C: DaemonConfigurator> AttributionSubsystem<S, C> {
    /// What was asked of the server, in order: `Some((path, ok))` for a start on `path`
    /// with whether it succeeded, `None` for a shutdown.
    pub closed spec fn spec_server_log(&self) -> Seq<Option<(Seq<char>, bool)>> {
        self.server.spec_log()
    }

    /// The server runs: it was started and has not been shut down since.
    pub closed spec fn spec_serving(&self) -> bool {
        self.serving
    }

    pub closed spec fn spec_configurator(&self) -> C {
        self.configurator
    }

    /// The address the daemon was last successfully pointed at.
    pub open spec fn spec_socket(&self) -> Option<Seq<char>> {
        self.spec_configurator().spec_socket()
    }

    /// The saved original addresses of the daemon, oldest first.
    pub closed spec fn spec_origins(&self) -> Seq<Seq<char>> {
        origin_rows(self.storage)
    }

    /// What the last start found of the daemon.
    pub closed spec fn spec_last_detection(&self) -> Option<DaemonDetection> {
        self.last_detection
    }

    /// The process cache: one executable per `(pid, start time)`.
    pub closed spec fn spec_cache(&self) -> Seq<(u32, u64, Seq<char>)> {
        self.cache.entries()
    }

    /// The path of the socket the server listens on.
    pub closed spec fn spec_socket_path(&self) -> Seq<char> {
        self.socket_path@
    }

    /// The address the daemon is given: the socket's URI.
    pub open spec fn spec_target(&self) -> Seq<char> {
        "unix://"@ + self.spec_socket_path()
    }

    /// A stopped domain that will serve on `socket_path`, keep the daemon's original
    /// addresses in `storage`, and reconfigure the daemon through `configurator`.
    pub fn with_configurator(server: S, configurator: C, storage: StorageHandle, socket_path: String) -> (s:
        AttributionSubsystem<S, C>)
        ensures
            !s.spec_active(),
            !s.spec_serving(),
            s.spec_configurator() == configurator,
            s.spec_origins() == origin_rows(storage),
            s.spec_last_detection() is None,
            s.spec_cache().len() == 0,
            s.spec_socket_path() == socket_path@,
            s.spec_server_log() == server.spec_log(),
            s.spec_calls().len() == 0,
    {
        AttributionSubsystem {
            active: false,
            serving: false,
            server,
            configurator,
            storage,
            cache: LiveCache::new(),
            socket_path,
            last_detection: None,
            calls: Ghost(Seq::empty()),
        }
    }

    /// What the last start found of the daemon, none before the first start.
    pub fn last_detection(&self) -> (r: &Option<DaemonDetection>)
        ensures
            *r == self.spec_last_detection(),
    {
        &self.last_detection
    }

    pub fn configurator(&self) -> (r: &C)
        ensures
            *r == self.spec_configurator(),
    {
        &self.configurator
    }

    /// The configurator, to change; nothing else of the domain changes.
    pub fn configurator_mut(&mut self) -> (r: &mut C)
        ensures
            *r == old(self).spec_configurator(),
            final(self).spec_configurator() == *final(r),
            final(self).spec_active() == old(self).spec_active(),
            final(self).spec_serving() == old(self).spec_serving(),
            final(self).spec_origins() == old(self).spec_origins(),
            final(self).spec_last_detection() == old(self).spec_last_detection(),
            final(self).spec_cache() == old(self).spec_cache(),
            final(self).spec_socket_path() == old(self).spec_socket_path(),
            final(self).spec_server_log() == old(self).spec_server_log(),
    {
        &mut self.configurator
    }

    /// The number of processes in the cache.
    pub fn cached_processes(&self) -> (n: usize)
        ensures
            n == self.spec_cache().len(),
    {
        self.cache.len()
    }

    /// A connection reported by the daemon, with the start time read for its pid and the time
    /// in milliseconds: the cache learns the executable, and the attribution to publish comes
    /// back with whether the display name is still to be resolved.
    pub fn record_connection(
        &mut self,
        names: &AppNameCache,
        conn: &DaemonConnection,
        start_time: Option<u64>,
        now_ms: u128,
    ) -> (r: Option<(AttributionEvent, bool)>)
        requires
            names.wf(),
        ensures
            !usable(*conn, start_time) ==> r is None && final(self).spec_cache() == old(
                self,
            ).spec_cache(),
            usable(*conn, start_time) ==> (r matches Some((e, pending)) && e.pid == conn.pid
                && e.exe_path@ == conn.exe_path@ && e.app_name@ == display_name(
                names.entries(),
                conn.exe_path@,
            ) && pending == (names_lookup(names.entries(), conn.exe_path@) is None) && (
            e.five_tuple matches Some(t) && t@ == connection_tuple(*conn)) && e.timestamp_unix_ms
                == now_ms && final(self).spec_cache() == cache_store(
                old(self).spec_cache(),
                conn.pid,
                start_time->0,
                conn.exe_path@,
            )),
            final(self).spec_active() == old(self).spec_active(),
            final(self).spec_serving() == old(self).spec_serving(),
            final(self).spec_configurator() == old(self).spec_configurator(),
            final(self).spec_origins() == old(self).spec_origins(),
            final(self).spec_last_detection() == old(self).spec_last_detection(),
    {
        self.cache.record(names, conn, start_time, now_ms)
    }
}

/// What a start of the attribution domain does: either the server could not start and
/// nothing else happened, or the daemon was detected, its address saved, and it was asked to
/// use the server's socket; on success the server runs and the daemon points at it, on
/// failure the server is shut down again.
pub open spec fn attribution_started<S: AttributionServer, C: DaemonConfigurator>(
    s0: AttributionSubsystem<S, C>,
    s1: AttributionSubsystem<S, C>,
    r: Result<(), KillSwitchError>,
) -> bool {
    ||| {
        &&& s1.spec_server_log() == s0.spec_server_log().push(Some((s0.spec_socket_path(), false)))
        &&& r matches Err(e) && e is SubsystemExec
        &&& s1.spec_serving() == s0.spec_serving()
        &&& s1.spec_configurator() == s0.spec_configurator()
        &&& s1.spec_origins() == s0.spec_origins()
        &&& s1.spec_last_detection() == s0.spec_last_detection()
    }
    ||| {
        &&& s1.spec_configurator().spec_accepts() == s0.spec_configurator().spec_accepts()
        &&& s0.spec_configurator().spec_accepts() ==> r is Ok
        &&& s1.spec_last_detection() matches Some(d) && s1.spec_origins() == origins_after(
            s0.spec_origins(),
            d,
        )
        &&& s1.spec_configurator().spec_asked() == s0.spec_configurator().spec_asked().push(
            (s0.spec_target(), r is Ok),
        )
        &&& r is Ok ==> s1.spec_serving() && s1.spec_socket() == Some(s0.spec_target())
            && s1.spec_server_log() == s0.spec_server_log().push(Some((s0.spec_socket_path(), true)))
        &&& r is Err ==> !s1.spec_serving() && s1.spec_server_log() == s0.spec_server_log().push(
            Some((s0.spec_socket_path(), true)),
        ).push(None)
    }
}

/// What a stop of the attribution domain does to the daemon and the server: the daemon is
/// asked to go back to its last saved address (nothing is asked when none was saved), and the
/// server no longer runs.
pub open spec fn attribution_stopped<S: AttributionServer, C: DaemonConfigurator>(
    s0: AttributionSubsystem<S, C>,
    s1: AttributionSubsystem<S, C>,
    r: Result<(), KillSwitchError>,
) -> bool {
    &&& !s1.spec_serving()
    &&& s1.spec_configurator().spec_accepts() == s0.spec_configurator().spec_accepts()
    &&& s0.spec_configurator().spec_accepts() ==> r is Ok
    &&& s1.spec_origins() == s0.spec_origins()
    &&& s0.spec_origins().len() == 0 ==> r is Ok && s1.spec_socket() == s0.spec_socket()
    &&& s0.spec_origins().len() > 0 && r is Ok ==> s1.spec_socket() == Some(s0.spec_origins().last())
    &&& s0.spec_origins().len() > 0 ==> s1.spec_configurator().spec_asked()
        == s0.spec_configurator().spec_asked().push((s0.spec_origins().last(), r is Ok))
    &&& s0.spec_origins().len() == 0 ==> s1.spec_configurator().spec_asked()
        == s0.spec_configurator().spec_asked()
}

impl<S: AttributionServer, C: DaemonConfigurator> Subsystem for AttributionSubsystem<S, C> {
    closed spec fn spec_name(&self) -> Seq<char> {
        "attribution"@
    }

    closed spec fn spec_active(&self) -> bool {
        self.active
    }

    closed spec fn spec_calls(&self) -> Seq<(bool, bool)> {
        self.calls@
    }

    /// It drives the system, which may refuse.
    closed spec fn spec_reliable(&self) -> bool {
        false
    }

    fn name(&self) -> (n: &'static str) {
        "attribution"
    }

    /// When the server cannot start, nothing else happens. Otherwise the daemon is detected,
    /// its address saved, and it is pointed at the server's socket; if that fails, the server
    /// is shut down again and the daemon's error is returned.
    fn start(&mut self) -> (r: Result<(), KillSwitchError>)
        ensures
            attribution_started(*old(self), *final(self), r),
            final(self).spec_cache() == old(self).spec_cache(),
            final(self).spec_socket_path() == old(self).spec_socket_path(),
    {
        let target = socket_uri(self.socket_path.as_str());
        let started = self.server.start(self.socket_path.as_str());
        match started {
            Ok(()) => {},
            Err(reason) => {
                proof {
                    self.calls@ = self.calls@.push((true, false));
                }
                return Err(exec_error("attribution", reason.as_str()));
            },
        }
        let (detection, outcome) = reconfigure_daemon(
            &mut self.configurator,
            &mut self.storage,
            target.as_str(),
        );
        self.last_detection = Some(detection);
        match outcome {
            Ok(()) => {
                self.serving = true;
                self.active = true;
                proof {
                    self.calls@ = self.calls@.push((true, true));
                }
                Ok(())
            },
            Err(error) => {
                self.server.shutdown();
                proof {
                    self.calls@ = self.calls@.push((true, false));
                }
                self.serving = false;
                Err(error)
            },
        }
    }

    /// The daemon is pointed back at its last saved original address (nothing to do when none
    /// was saved), the server is shut down, and the cache forgets the processes that are gone;
    /// the result is the restoration's.
    fn stop(&mut self) -> (r: Result<(), KillSwitchError>)
        ensures
            attribution_stopped(*old(self), *final(self), r),
            exists|alive: Seq<bool>|
                alive.len() == old(self).spec_cache().len() && #[trigger] keep_alive(
                    old(self).spec_cache(),
                    alive,
                ) == final(self).spec_cache(),
            final(self).spec_cache().len() <= old(self).spec_cache().len(),
            forall|k: int|
                0 <= k < final(self).spec_cache().len() ==> old(self).spec_cache().contains(
                    #[trigger] final(self).spec_cache()[k],
                ),
            final(self).spec_last_detection() == old(self).spec_last_detection(),
            final(self).spec_socket_path() == old(self).spec_socket_path(),
            final(self).spec_server_log() == (if old(self).spec_serving() {
                old(self).spec_server_log().push(None)
            } else {
                old(self).spec_server_log()
            }),
    {
        let restored = restore_daemon(&mut self.configurator, &self.storage);
        if self.serving {
            self.server.shutdown();
        }
        self.serving = false;
        let ghost c0 = self.cache.entries();
        self.cache.evict_dead();
        let ghost alive = choose|alive: Seq<bool>|
            alive.len() == c0.len() && #[trigger] keep_alive(c0, alive) == self.cache.entries();
        assert(keep_alive(c0, alive) == self.cache.entries());
        self.active = false;
        assert(c0 == old(self).spec_cache());
        assert(keep_alive(old(self).spec_cache(), alive) == self.spec_cache());
        proof {
            self.calls@ = self.calls@.push((false, restored is Ok));
        }
        restored
    }

    fn is_active(&self) -> (b: bool) {
        self.active
    }
}

/// A stop after a successful start gives the daemon back the address it had before the
/// start: when the start found it at an address, the stop asks to point it there again, and
/// when that succeeds the daemon's socket is that address; with a daemon that accepts every
/// change, the stop succeeds and the daemon points there again. The server no longer runs
/// either way.
pub proof fn lemma_start_stop_restores_daemon<S: AttributionServer, C: DaemonConfigurator>(
    s0: AttributionSubsystem<S, C>,
    s1: AttributionSubsystem<S, C>,
    r1: Result<(), KillSwitchError>,
    s2: AttributionSubsystem<S, C>,
    r2: Result<(), KillSwitchError>,
)
    requires
        attribution_started(s0, s1, r1),
        r1 is Ok,
        attribution_stopped(s1, s2, r2),
    ensures
        !s2.spec_serving(),
        s1.spec_last_detection() is Some,
        s1.spec_last_detection()->0.current_address matches Some(a) ==> s2.spec_configurator().spec_asked()
            == s1.spec_configurator().spec_asked().push((a@, r2 is Ok)) && (r2 is Ok
            ==> s2.spec_socket() == Some(a@)),
        s0.spec_configurator().spec_accepts() ==> r2 is Ok && (s1.spec_last_detection()->0.current_address matches Some(a)
            ==> s2.spec_socket() == Some(a@)),
{
}

/// An attribution domain that runs no server.
pub struct FakeAttributionSubsystem {
    active: bool,
    calls: Ghost<Seq<(bool, bool)>>,
}

impl FakeAttributionSubsystem {
    pub fn new() -> (s: FakeAttributionSubsystem)
        ensures
            s.spec_name() == "attribution"@,
            !s.spec_active(),
    {
        FakeAttributionSubsystem { active: false, calls: Ghost(Seq::empty()) }
    }
}

impl Subsystem for FakeAttributionSubsystem {
    closed spec fn spec_name(&self) -> Seq<char> {
        "attribution"@
    }

    closed spec fn spec_active(&self) -> bool {
        self.active
    }

    closed spec fn spec_calls(&self) -> Seq<(bool, bool)> {
        self.calls@
    }

    closed spec fn spec_reliable(&self) -> bool {
        true
    }

    fn name(&self) -> (n: &'static str) {
        "attribution"
    }

    fn start(&mut self) -> (r: Result<(), KillSwitchError>)
        ensures
            r is Ok,
    {
        self.active = true;
        proof {
            self.calls@ = self.calls@.push((true, true));
        }
        Ok(())
    }

    fn stop(&mut self) -> (r: Result<(), KillSwitchError>)
        ensures
            r is Ok,
    {
        self.active = false;
        proof {
            self.calls@ = self.calls@.push((false, true));
        }
        Ok(())
    }

    fn is_active(&self) -> (b: bool) {
        self.active
    }
}

} // verus!
