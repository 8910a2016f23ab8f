//! What the attribution server does with a connection that the daemon reports: the process
//! cache is updated and an attribution is published to correlation. Nothing here waits on the
//! disk: the display name comes from the name cache, or provisionally from the binary's name
//! while the real one is resolved in the background.

use vstd::prelude::*;

use crate::paths::path_join;
use crate::text::{chars_of, owned, push_dec};

use super::cache::{cache_store, ProcessCache};
use super::desktop::{basename, basename_of, names_lookup, AppNameCache};
use super::event::{AttributionEvent, FiveTuple, TupleView};

verus! {

/// A connection as the daemon reports it; addresses already in canonical text form, ports as
/// the daemon's 32-bit fields.
pub struct DaemonConnection {
    pub pid: u32,
    pub exe_path: String,
    pub protocol: String,
    pub src_ip: String,
    pub src_port: u32,
    pub dst_ip: String,
    pub dst_port: u32,
}

/// The display name while `exe_path` is looked up: the cached name, else the binary's name
/// (provisional).
pub open spec fn display_name(names: Seq<(Seq<char>, Seq<char>)>, exe_path: Seq<char>) -> Seq<char> {
    match names_lookup(names, exe_path) {
        Some(n) => n,
        None => basename(exe_path),
    }
}

/// The display name of `exe_path`, and whether its real name is still to be resolved (in the
/// background, since resolution reads the disk).
pub fn app_name_for(names: &AppNameCache, exe_path: &str) -> (r: (String, bool))
    requires
        names.wf(),
    ensures
        r.0@ == display_name(names.entries(), exe_path@),
        r.1 == (names_lookup(names.entries(), exe_path@) is None),
{
    match names.get(exe_path) {
        Some(n) => (n, false),
        None => (basename_of(exe_path), true),
    }
}

/// The 5-tuple of a reported connection: protocol in lower case, ports cut to 16 bits.
pub open spec fn connection_tuple(c: DaemonConnection) -> TupleView {
    TupleView {
        protocol: crate::text::lowercase(c.protocol@),
        src_ip: c.src_ip@,
        src_port: c.src_port as u16,
        dst_ip: c.dst_ip@,
        dst_port: c.dst_port as u16,
    }
}

/// A connection is usable when it names a process (a pid and an executable) that was still
/// alive to give its start time.
pub open spec fn usable(c: DaemonConnection, start_time: Option<u64>) -> bool {
    c.pid != 0 && c.exe_path@.len() > 0 && start_time is Some
}

/// Handles one reported connection, given the start time read for its pid (none when the
/// process is already gone) and the time in milliseconds: the process cache learns the
/// executable, and the attribution to publish is returned with whether the display name is
/// still to be resolved. An unusable connection changes nothing.
pub fn handle_connection(
    cache: &mut ProcessCache,
    names: &AppNameCache,
    conn: &DaemonConnection,
    start_time: Option<u64>,
    now_ms: u128,
) -> (r: Option<(AttributionEvent, bool)>)
    requires
        old(cache).wf(),
        names.wf(),
    ensures
        final(cache).wf(),
        !usable(*conn, start_time) ==> r is None && final(cache).entries() == old(cache).entries(),
        usable(*conn, start_time) ==> (r matches Some((e, pending)) && e.pid == conn.pid
            && e.exe_path@ == conn.exe_path@ && e.app_name@ == display_name(
            names.entries(),
            conn.exe_path@,
        ) && pending == (names_lookup(names.entries(), conn.exe_path@) is None) && (
        e.five_tuple matches Some(t) && t@ == connection_tuple(*conn)) && e.timestamp_unix_ms
            == now_ms && final(cache).entries() == cache_store(
            old(cache).entries(),
            conn.pid,
            start_time->0,
            conn.exe_path@,
        )),
{
    if conn.pid == 0 || chars_of(conn.exe_path.as_str()).len() == 0 {
        return None;
    }
    let start = match start_time {
        Some(s) => s,
        None => {
            return None;
        },
    };
    cache.insert(conn.pid, start, conn.exe_path.clone());
    let (app_name, pending) = app_name_for(names, conn.exe_path.as_str());
    let tuple = FiveTuple {
        protocol: crate::text::to_lowercase(conn.protocol.as_str()),
        src_ip: conn.src_ip.clone(),
        src_port: #[verifier::truncate] (conn.src_port as u16),
        dst_ip: conn.dst_ip.clone(),
        dst_port: #[verifier::truncate] (conn.dst_port as u16),
    };
    let event = AttributionEvent {
        pid: conn.pid,
        exe_path: conn.exe_path.clone(),
        app_name,
        five_tuple: Some(tuple),
        timestamp_unix_ms: now_ms,
    };
    Some((event, pending))
}

/// The rule answered to the daemon for a connection.
pub struct DaemonRule {
    pub created: u64,
    pub name: String,
    pub description: String,
    pub enabled: bool,
    pub precedence: bool,
    pub nolog: bool,
    pub action: String,
    pub duration: String,
}

/// The answer to every connection the daemon asks about: allow it, this once. Vitrail only
/// observes; it never blocks a connection nor makes a rule last.
pub fn allow_rule() -> (r: DaemonRule)
    ensures
        r.created == 0,
        r.name@ == "vitrail-allow"@,
        r.description@ == "Vitrail observe uniquement, ne bloque jamais"@,
        r.enabled,
        !r.precedence,
        !r.nolog,
        r.action@ == "allow"@,
        r.duration@ == "once"@,
{
    DaemonRule {
        created: 0,
        name: owned("vitrail-allow"),
        description: owned("Vitrail observe uniquement, ne bloque jamais"),
        enabled: true,
        precedence: false,
        nolog: false,
        action: owned("allow"),
        duration: owned("once"),
    }
}

/// The daemon asks what to do with a connection: the connection is handled (the cache
/// learns its process, and its attribution is returned) and it is always allowed, once.
pub fn ask_rule(
    cache: &mut ProcessCache,
    names: &AppNameCache,
    conn: &DaemonConnection,
    start_time: Option<u64>,
    now_ms: u128,
) -> (r: (DaemonRule, Option<(AttributionEvent, bool)>))
    requires
        old(cache).wf(),
        names.wf(),
    ensures
        final(cache).wf(),
        r.0.action@ == "allow"@ && r.0.duration@ == "once"@,
        !usable(*conn, start_time) ==> r.1 is None && final(cache).entries() == old(cache).entries(),
        usable(*conn, start_time) ==> r.1 is Some && final(cache).entries() == cache_store(
            old(cache).entries(),
            conn.pid,
            start_time->0,
            conn.exe_path@,
        ),
{
    let attribution = handle_connection(cache, names, conn, start_time, now_ms);
    (allow_rule(), attribution)
}

/// The directory of the attribution socket: `$XDG_RUNTIME_DIR`, else
/// `/tmp/vitrail-runtime-<uid>`.
pub open spec fn runtime_base(runtime_dir: Option<Seq<char>>, uid: u32) -> Seq<char> {
    match runtime_dir {
        Some(d) => d,
        None => "/tmp/vitrail-runtime-"@ + crate::text::dec(uid as nat),
    }
}

/// Where the attribution server listens: `<runtime>/vitrail/ui.sock`.
pub open spec fn socket_file(runtime_dir: Option<Seq<char>>, uid: u32) -> Seq<char> {
    path_join(path_join(runtime_base(runtime_dir, uid), "vitrail"@), "ui.sock"@)
}

pub fn socket_path(runtime_dir: Option<&str>, uid: u32) -> (r: String)
    ensures
        r@ == socket_file(crate::paths::opt_str_view(runtime_dir), uid),
{
    let base = match runtime_dir {
        Some(d) => owned(d),
        None => {
            let mut s = owned("/tmp/vitrail-runtime-");
            push_dec(&mut s, uid as u64);
            s
        },
    };
    let dir = crate::paths::join(base.as_str(), "vitrail");
    crate::paths::join(dir.as_str(), "ui.sock")
}


/// The 5-tuple of a reported connection keeps its direction: source address and port from
/// the connection's source, destination address and port from its destination.
pub proof fn lemma_connection_tuple_keeps_direction(c: DaemonConnection)
    ensures
        connection_tuple(c).src_ip == c.src_ip@,
        connection_tuple(c).dst_ip == c.dst_ip@,
        connection_tuple(c).src_port as int == c.src_port as int % 65536,
        connection_tuple(c).dst_port as int == c.dst_port as int % 65536,
{
    let a = c.src_port;
    let b = c.dst_port;
    assert(a as u16 == a % 65536) by (bit_vector);
    assert(b as u16 == b % 65536) by (bit_vector);
}

} // verus!
