//! The demonstration data of the user interface, for screens not yet fed by correlation: ten
//! flows of a sample session, their HTTP exchange, their correlation sources, and a sample
//! journal.

use vstd::prelude::*;

use crate::shared::{
    headers_view, opt_view, sources_view, CertificateInfo, CertificateView, CorrelationSource, Flow,
    FlowView, FlowVisibility, HttpHeader, LogEntry,
};
use crate::text::{dec, dec_string, hex, hex_chars, owned, push_char, push_str, str_eq};
use vstd::utf8::encode_utf8;

use super::log_entries::entry_view;

verus! {

/// One demonstration flow.
#[derive(Clone, Copy)]
pub struct FlowSeed {
    pub id: &'static str,
    pub timestamp: &'static str,
    pub process: &'static str,
    pub destination: &'static str,
    pub ip: &'static str,
    pub port: u16,
    pub protocol: &'static str,
    pub size_bytes: u64,
    pub duration_ms: u64,
    pub visibility: FlowVisibility,
    pub method: Option<&'static str>,
    pub path: Option<&'static str>,
    pub status: Option<u16>,
}

/// The visibilities of the ten demonstration flows, in order.
pub open spec fn seed_visibilities() -> Seq<FlowVisibility> {
    seq![
        FlowVisibility::Fully,
        FlowVisibility::Fully,
        FlowVisibility::Meta,
        FlowVisibility::Meta,
        FlowVisibility::Fully,
        FlowVisibility::Attrib,
        FlowVisibility::Fully,
        FlowVisibility::Fully,
        FlowVisibility::Fully,
        FlowVisibility::Fully,
    ]
}

/// The value of a demonstration flow.
pub struct FlowSeedView {
    pub id: Seq<char>,
    pub timestamp: Seq<char>,
    pub process: Seq<char>,
    pub destination: Seq<char>,
    pub ip: Seq<char>,
    pub port: u16,
    pub protocol: Seq<char>,
    pub size_bytes: u64,
    pub duration_ms: u64,
    pub visibility: FlowVisibility,
    pub method: Option<Seq<char>>,
    pub path: Option<Seq<char>>,
    pub status: Option<u16>,
}

pub open spec fn seed_view(s: FlowSeed) -> FlowSeedView {
    FlowSeedView {
        id: s.id@,
        timestamp: s.timestamp@,
        process: s.process@,
        destination: s.destination@,
        ip: s.ip@,
        port: s.port,
        protocol: s.protocol@,
        size_bytes: s.size_bytes,
        duration_ms: s.duration_ms,
        visibility: s.visibility,
        method: match s.method {
            Some(m) => Some(m@),
            None => None,
        },
        path: match s.path {
            Some(p) => Some(p@),
            None => None,
        },
        status: s.status,
    }
}

/// A flow on port 443 without request details.
pub open spec fn meta_row(
    id: Seq<char>,
    timestamp: Seq<char>,
    process: Seq<char>,
    destination: Seq<char>,
    ip: Seq<char>,
    protocol: Seq<char>,
    size_bytes: u64,
    duration_ms: u64,
    visibility: FlowVisibility,
) -> FlowSeedView {
    FlowSeedView {
        id,
        timestamp,
        process,
        destination,
        ip,
        port: 443,
        protocol,
        size_bytes,
        duration_ms,
        visibility,
        method: None,
        path: None,
        status: None,
    }
}

/// A decrypted TLS 1.3 flow on port 443, with its request.
pub open spec fn full_row(
    id: Seq<char>,
    timestamp: Seq<char>,
    process: Seq<char>,
    destination: Seq<char>,
    ip: Seq<char>,
    size_bytes: u64,
    duration_ms: u64,
    method: Seq<char>,
    path: Seq<char>,
    status: u16,
) -> FlowSeedView {
    FlowSeedView {
        id,
        timestamp,
        process,
        destination,
        ip,
        port: 443,
        protocol: "TLS 1.3"@,
        size_bytes,
        duration_ms,
        visibility: FlowVisibility::Fully,
        method: Some(method),
        path: Some(path),
        status: Some(status),
    }
}

/// The ten flows of the demonstration session, in order.
pub open spec fn demo_seeds() -> Seq<FlowSeedView> {
    seq![
        full_row("f0"@, "14:58:44"@, "Google Chrome"@, "api.google.com"@, "142.250.74.238"@, 45230, 820, "GET"@, "/search?q=vitrail"@, 200),
        full_row("f1"@, "14:57:01"@, "Google Chrome"@, "cdn.jsdelivr.net"@, "151.101.1.229"@, 18200, 340, "GET"@, "/npm/lucide@latest"@, 200),
        meta_row("f2"@, "14:58:30"@, "Slack"@, "slack.com"@, "34.237.168.12"@, "TLS 1.3"@, 8920, 1200, FlowVisibility::Meta),
        meta_row("f3"@, "14:58:50"@, "Discord"@, "discord.gg"@, "162.159.135.232"@, "TLS 1.3"@, 23100, 980, FlowVisibility::Meta),
        full_row("f4"@, "14:55:19"@, "VS Code"@, "github.com"@, "140.82.121.4"@, 8900, 410, "GET"@, "/api/v3/repos/user/project"@, 200),
        meta_row("f5"@, "14:56:33"@, "Docker Desktop"@, "registry-1.docker.io"@, "52.5.133.89"@, "TLS 1.2"@, 523000, 4200, FlowVisibility::Attrib),
        full_row("f6"@, "14:58:55"@, "Spotify"@, "spotify.com"@, "35.186.224.45"@, 245000, 2100, "GET"@, "/audio/track/8f2k3j"@, 206),
        full_row("f7"@, "14:58:40"@, "Firefox"@, "play.googleapis.com"@, "142.250.74.174"@, 3200, 190, "POST"@, "/fdls/subscriptions"@, 200),
        full_row("f8"@, "14:45:22"@, "Node.js"@, "crates.io"@, "18.214.128.42"@, 5600, 260, "GET"@, "/api/v1/crates/serde"@, 200),
        full_row("f9"@, "14:30:15"@, "Google Chrome"@, "fonts.googleapis.com"@, "142.250.74.238"@, 4200, 120, "GET"@, "/css2?family=Outfit"@, 200),
    ]
}

/// A flow seed without request details.
fn meta_seed(
    id: &'static str,
    timestamp: &'static str,
    process: &'static str,
    destination: &'static str,
    ip: &'static str,
    protocol: &'static str,
    size_bytes: u64,
    duration_ms: u64,
    visibility: FlowVisibility,
) -> (s: FlowSeed)
    ensures
        seed_view(s) == meta_row(
            id@,
            timestamp@,
            process@,
            destination@,
            ip@,
            protocol@,
            size_bytes,
            duration_ms,
            visibility,
        ),
{
    FlowSeed {
        id,
        timestamp,
        process,
        destination,
        ip,
        port: 443,
        protocol,
        size_bytes,
        duration_ms,
        visibility,
        method: None,
        path: None,
        status: None,
    }
}

/// A decrypted flow seed, with its request.
fn full_seed(
    id: &'static str,
    timestamp: &'static str,
    process: &'static str,
    destination: &'static str,
    ip: &'static str,
    size_bytes: u64,
    duration_ms: u64,
    method: &'static str,
    path: &'static str,
    status: u16,
) -> (s: FlowSeed)
    ensures
        seed_view(s) == full_row(
            id@,
            timestamp@,
            process@,
            destination@,
            ip@,
            size_bytes,
            duration_ms,
            method@,
            path@,
            status,
        ),
{
    FlowSeed {
        id,
        timestamp,
        process,
        destination,
        ip,
        port: 443,
        protocol: "TLS 1.3",
        size_bytes,
        duration_ms,
        visibility: FlowVisibility::Fully,
        method: Some(method),
        path: Some(path),
        status: Some(status),
    }
}

/// The ten flows of the demonstration session, `f0` to `f9`: all on port 443, with a
/// request (method, path, status) exactly when decrypted.
pub fn flow_seeds() -> (r: Vec<FlowSeed>)
    ensures
        r@.len() == 10,
        r@.map_values(|s: FlowSeed| seed_view(s)) == demo_seeds(),
        r@.map_values(|s: FlowSeed| s.id@) == seq![
            "f0"@,
            "f1"@,
            "f2"@,
            "f3"@,
            "f4"@,
            "f5"@,
            "f6"@,
            "f7"@,
            "f8"@,
            "f9"@,
        ],
        r@.map_values(|s: FlowSeed| s.visibility) == seed_visibilities(),
        forall|k: int|
            0 <= k < 10 ==> (#[trigger] r@[k]).port == 443 && (r@[k].method is Some
                <==> r@[k].visibility == FlowVisibility::Fully) && (r@[k].path is Some
                <==> r@[k].visibility == FlowVisibility::Fully) && (r@[k].status is Some
                <==> r@[k].visibility == FlowVisibility::Fully),
{
    let mut v: Vec<FlowSeed> = Vec::new();
    v.push(
        full_seed(
            "f0",
            "14:58:44",
            "Google Chrome",
            "api.google.com",
            "142.250.74.238",
            45230,
            820,
            "GET",
            "/search?q=vitrail",
            200,
        ),
    );
    v.push(
        full_seed(
            "f1",
            "14:57:01",
            "Google Chrome",
            "cdn.jsdelivr.net",
            "151.101.1.229",
            18200,
            340,
            "GET",
            "/npm/lucide@latest",
            200,
        ),
    );
    v.push(
        meta_seed(
            "f2",
            "14:58:30",
            "Slack",
            "slack.com",
            "34.237.168.12",
            "TLS 1.3",
            8920,
            1200,
            FlowVisibility::Meta,
        ),
    );
    v.push(
        meta_seed(
            "f3",
            "14:58:50",
            "Discord",
            "discord.gg",
            "162.159.135.232",
            "TLS 1.3",
            23100,
            980,
            FlowVisibility::Meta,
        ),
    );
    v.push(
        full_seed(
            "f4",
            "14:55:19",
            "VS Code",
            "github.com",
            "140.82.121.4",
            8900,
            410,
            "GET",
            "/api/v3/repos/user/project",
            200,
        ),
    );
    v.push(
        meta_seed(
            "f5",
            "14:56:33",
            "Docker Desktop",
            "registry-1.docker.io",
            "52.5.133.89",
            "TLS 1.2",
            523000,
            4200,
            FlowVisibility::Attrib,
        ),
    );
    v.push(
        full_seed(
            "f6",
            "14:58:55",
            "Spotify",
            "spotify.com",
            "35.186.224.45",
            245000,
            2100,
            "GET",
            "/audio/track/8f2k3j",
            206,
        ),
    );
    v.push(
        full_seed(
            "f7",
            "14:58:40",
            "Firefox",
            "play.googleapis.com",
            "142.250.74.174",
            3200,
            190,
            "POST",
            "/fdls/subscriptions",
            200,
        ),
    );
    v.push(
        full_seed(
            "f8",
            "14:45:22",
            "Node.js",
            "crates.io",
            "18.214.128.42",
            5600,
            260,
            "GET",
            "/api/v1/crates/serde",
            200,
        ),
    );
    v.push(
        full_seed(
            "f9",
            "14:30:15",
            "Google Chrome",
            "fonts.googleapis.com",
            "142.250.74.238",
            4200,
            120,
            "GET",
            "/css2?family=Outfit",
            200,
        ),
    );
    assert(v@.map_values(|s: FlowSeed| s.id@) =~= seq![
        "f0"@,
        "f1"@,
        "f2"@,
        "f3"@,
        "f4"@,
        "f5"@,
        "f6"@,
        "f7"@,
        "f8"@,
        "f9"@,
    ]);
    assert(v@.map_values(|s: FlowSeed| s.visibility) =~= seed_visibilities());
    assert(v@.map_values(|s: FlowSeed| seed_view(s)) =~= demo_seeds());
    v
}

fn header(name: &str, value: &str) -> (h: HttpHeader)
    ensures
        h.name@ == name@ && h.value@ == value@,
{
    HttpHeader { name: owned(name), value: owned(value) }
}

/// The content type of the demonstration responses.
pub open spec fn json_type() -> Seq<char> {
    "application/json; charset=utf-8"@
}

/// The sample HTTP exchange of a decrypted demonstration flow: three request headers, three
/// response headers, the body preview and its content type.
pub fn http_exchange(seed: &FlowSeed) -> (r: (Vec<HttpHeader>, Vec<HttpHeader>, Option<String>, Option<String>))
    ensures
        headers_view(r.0@) == seq![
            ("Host"@, seed.destination@),
            ("Accept"@, "application/json, text/plain, */*"@),
            ("Connection"@, "keep-alive"@),
        ],
        headers_view(r.1@) == seq![
            ("Content-Type"@, json_type()),
            ("Content-Length"@, dec(seed.size_bytes as nat)),
            ("X-Request-Id"@, seed.id@ + "-req"@),
        ],
        opt_view(r.2) == Some("{\"timestamp\":\""@ + seed.timestamp@ + "\",\"data\":[...]}"@),
        opt_view(r.3) == Some(json_type()),
{
    let mut request: Vec<HttpHeader> = Vec::new();
    request.push(header("Host", seed.destination));
    request.push(header("Accept", "application/json, text/plain, */*"));
    request.push(header("Connection", "keep-alive"));
    let mut request_id = owned(seed.id);
    push_str(&mut request_id, "-req");
    let size = dec_string(seed.size_bytes);
    let mut response: Vec<HttpHeader> = Vec::new();
    response.push(header("Content-Type", "application/json; charset=utf-8"));
    response.push(header("Content-Length", size.as_str()));
    response.push(header("X-Request-Id", request_id.as_str()));
    let mut body = owned("{\"timestamp\":\"");
    push_str(&mut body, seed.timestamp);
    push_str(&mut body, "\",\"data\":[...]}");
    assert(headers_view(request@) =~= seq![
        ("Host"@, seed.destination@),
        ("Accept"@, "application/json, text/plain, */*"@),
        ("Connection"@, "keep-alive"@),
    ]);
    assert(headers_view(response@) =~= seq![
        ("Content-Type"@, json_type()),
        ("Content-Length"@, dec(seed.size_bytes as nat)),
        ("X-Request-Id"@, seed.id@ + "-req"@),
    ]);
    (request, response, Some(body), Some(owned("application/json; charset=utf-8")))
}

/// The capture source's status and detail for a visibility.
pub open spec fn capture_source(v: FlowVisibility) -> (Seq<char>, Seq<char>) {
    if v == FlowVisibility::Attrib {
        ("off"@, "Non applicable"@)
    } else {
        ("ok"@, "nftables redirect"@)
    }
}

/// The decryption source's status and detail for a visibility.
pub open spec fn decryption_source(v: FlowVisibility) -> (Seq<char>, Seq<char>) {
    match v {
        FlowVisibility::Fully => ("ok"@, "PolarProxy"@),
        FlowVisibility::Meta => ("warn"@, "Échoué (pinning)"@),
        _ => ("off"@, "Non applicable"@),
    }
}

fn source(name: &str, status: &str, detail: &str) -> (c: CorrelationSource)
    ensures
        c.name@ == name@ && c.status@ == status@ && c.detail@ == detail@,
{
    CorrelationSource { name: owned(name), status: owned(status), detail: owned(detail) }
}

/// The correlation sources shown for a demonstration flow of that visibility: attribution
/// always, capture unless only the process is known, decryption by visibility, keylog never.
pub fn mock_sources(visibility: FlowVisibility) -> (r: Vec<CorrelationSource>)
    ensures
        sources_view(r@) == seq![
            ("Attribution"@, "ok"@, "OpenSnitch"@),
            ("Capture"@, capture_source(visibility).0, capture_source(visibility).1),
            ("Décryptage"@, decryption_source(visibility).0, decryption_source(visibility).1),
            ("Keylog"@, "off"@, "Non utilisé pour ce flux"@),
        ],
{
    let (capture_status, capture_detail) = match visibility {
        FlowVisibility::Attrib => ("off", "Non applicable"),
        _ => ("ok", "nftables redirect"),
    };
    let (decrypt_status, decrypt_detail) = match visibility {
        FlowVisibility::Fully => ("ok", "PolarProxy"),
        FlowVisibility::Meta => ("warn", "Échoué (pinning)"),
        _ => ("off", "Non applicable"),
    };
    let mut v: Vec<CorrelationSource> = Vec::new();
    v.push(source("Attribution", "ok", "OpenSnitch"));
    v.push(source("Capture", capture_status, capture_detail));
    v.push(source("Décryptage", decrypt_status, decrypt_detail));
    v.push(source("Keylog", "off", "Non utilisé pour ce flux"));
    assert(sources_view(v@) =~= seq![
        ("Attribution"@, "ok"@, "OpenSnitch"@),
        ("Capture"@, capture_source(visibility).0, capture_source(visibility).1),
        ("Décryptage"@, decryption_source(visibility).0, decryption_source(visibility).1),
        ("Keylog"@, "off"@, "Non utilisé pour ce flux"@),
    ]);
    v
}

fn log_entry(time: &str, level: &str, subsystem: &str, message: &str) -> (e: LogEntry)
    ensures
        entry_view(e) == (time@, level@, subsystem@, message@),
{
    LogEntry { time: owned(time), level: owned(level), subsystem: owned(subsystem), message: owned(message) }
}

/// The sample journal of the demonstration session, newest first.
pub fn demo_log_entries() -> (r: Vec<LogEntry>)
    ensures
        r@.map_values(|e: LogEntry| entry_view(e)) == seq![
            ("14:58:22"@, "info"@, "killswitch"@, "Vérification post-activation terminée — conforme"@),
            ("14:58:18"@, "info"@, "capture"@, "Chaîne nftables VITRAIL_REDIRECT active sur wlan0, wg0"@),
            ("14:58:15"@, "info"@, "keylog"@, "Fichier SSLKEYLOGFILE initialisé : ~/.vitrail/keylog/sslkeys.log"@),
            ("14:58:12"@, "info"@, "decryption"@, "PolarProxy démarré (PID 8842), port 8081, CA chargée"@),
            ("14:58:08"@, "info"@, "attribution"@, "OpenSnitch daemon détecté (v1.6.6), connecté via socket UNIX"@),
            ("14:57:55"@, "warn"@, "decryption"@, "PolarProxy : le flux vers discord.gg a été mis en fail-open (pinning détecté)"@),
            ("14:45:12"@, "error"@, "attribution"@, "Timeout de connexion au socket OpenSnitch — nouvelle tentative dans 2s"@),
        ],
{
    let mut v: Vec<LogEntry> = Vec::new();
    v.push(log_entry("14:58:22", "info", "killswitch", "Vérification post-activation terminée — conforme"));
    v.push(log_entry("14:58:18", "info", "capture", "Chaîne nftables VITRAIL_REDIRECT active sur wlan0, wg0"));
    v.push(log_entry("14:58:15", "info", "keylog", "Fichier SSLKEYLOGFILE initialisé : ~/.vitrail/keylog/sslkeys.log"));
    v.push(log_entry("14:58:12", "info", "decryption", "PolarProxy démarré (PID 8842), port 8081, CA chargée"));
    v.push(log_entry("14:58:08", "info", "attribution", "OpenSnitch daemon détecté (v1.6.6), connecté via socket UNIX"));
    v.push(log_entry("14:57:55", "warn", "decryption", "PolarProxy : le flux vers discord.gg a été mis en fail-open (pinning détecté)"));
    v.push(log_entry("14:45:12", "error", "attribution", "Timeout de connexion au socket OpenSnitch — nouvelle tentative dans 2s"));
    assert(v@.map_values(|e: LogEntry| entry_view(e)) =~= seq![
        ("14:58:22"@, "info"@, "killswitch"@, "Vérification post-activation terminée — conforme"@),
        ("14:58:18"@, "info"@, "capture"@, "Chaîne nftables VITRAIL_REDIRECT active sur wlan0, wg0"@),
        ("14:58:15"@, "info"@, "keylog"@, "Fichier SSLKEYLOGFILE initialisé : ~/.vitrail/keylog/sslkeys.log"@),
        ("14:58:12"@, "info"@, "decryption"@, "PolarProxy démarré (PID 8842), port 8081, CA chargée"@),
        ("14:58:08"@, "info"@, "attribution"@, "OpenSnitch daemon détecté (v1.6.6), connecté via socket UNIX"@),
        ("14:57:55"@, "warn"@, "decryption"@, "PolarProxy : le flux vers discord.gg a été mis en fail-open (pinning détecté)"@),
        ("14:45:12"@, "error"@, "attribution"@, "Timeout de connexion au socket OpenSnitch — nouvelle tentative dans 2s"@),
    ]);
    v
}

/// What the demonstration flows need of a destination: its domain, and whether its traffic
/// is decrypted (then the local CA's certificate is shown).
pub struct DestinationTls {
    pub domain: String,
    pub tls: bool,
}

pub open spec fn destinations_view(d: Seq<DestinationTls>) -> Seq<(Seq<char>, bool)> {
    d.map_values(|x: DestinationTls| (x.domain@, x.tls))
}

/// Whether the first destination of that domain is decrypted; nothing for an unknown domain.
pub open spec fn first_tls(domain: Seq<char>, dests: Seq<(Seq<char>, bool)>) -> Option<bool>
    decreases dests.len(),
{
    if dests.len() == 0 {
        None
    } else if dests[0].0 == domain {
        Some(dests[0].1)
    } else {
        first_tls(domain, dests.drop_first())
    }
}

/// The sum of bytes on 32 bits, wrapping around.
pub open spec fn wrapping_byte_sum(b: Seq<u8>) -> nat
    decreases b.len(),
{
    if b.len() == 0 {
        0
    } else {
        let t: nat = wrapping_byte_sum(b.drop_last()) + b.last() as nat;
        if t > 0xFFFF_FFFF {
            (t - 0x1_0000_0000) as nat
        } else {
            t
        }
    }
}

/// `n` in upper-case hexadecimal, with zeros in front up to `width` digits.
pub open spec fn hex_padded(n: nat, width: nat) -> Seq<char> {
    let h = hex(n, true);
    if h.len() < width {
        Seq::new((width - h.len()) as nat, |_i: int| '0') + h
    } else {
        h
    }
}

/// The demonstration fingerprint of a domain: `SHA256:`, the sum of its UTF-8 bytes in eight
/// hexadecimal digits, `...`, then that sum with its low bits crossed with `BEEF`.
pub open spec fn demo_fingerprint(domain: Seq<char>) -> Seq<char> {
    let seed = wrapping_byte_sum(encode_utf8(domain)) as u32;
    "SHA256:"@ + hex_padded(seed as nat, 8) + "..."@ + hex_padded((seed ^ 0xBEEFu32) as nat, 4)
}

/// The certificate seen by the local interception for a domain whose first destination is
/// decrypted; none otherwise.
pub open spec fn demo_certificate(domain: Seq<char>, dests: Seq<(Seq<char>, bool)>) -> Option<CertificateView> {
    if first_tls(domain, dests) == Some(true) {
        Some(
            CertificateView {
                issuer: "Vitrail Local CA"@,
                subject: domain,
                valid_from: "2026-01-01T00:00:00Z"@,
                valid_to: "2027-01-01T00:00:00Z"@,
                fingerprint_sha256: demo_fingerprint(domain),
            },
        )
    } else {
        None
    }
}

/// Whether a demonstration flow shows its HTTP exchange: decrypted, with a request.
pub open spec fn shows_exchange(s: FlowSeedView) -> bool {
    s.visibility == FlowVisibility::Fully && s.method is Some
}

/// The demonstration flow built from seed `s`, the `index`-th of the session.
pub open spec fn demo_flow(s: FlowSeedView, index: u16, dests: Seq<(Seq<char>, bool)>) -> FlowView {
    FlowView {
        id: s.id,
        timestamp: s.timestamp,
        process: s.process,
        destination: s.destination,
        ip: s.ip,
        port: s.port,
        protocol: s.protocol,
        size_bytes: s.size_bytes,
        duration_ms: s.duration_ms,
        visibility: s.visibility,
        method: s.method,
        path: s.path,
        status: s.status,
        source_ip: "192.168.1.42"@,
        source_port: (51000 + index * 7) as u16,
        request_headers: if shows_exchange(s) {
            seq![
                ("Host"@, s.destination),
                ("Accept"@, "application/json, text/plain, */*"@),
                ("Connection"@, "keep-alive"@),
            ]
        } else {
            Seq::empty()
        },
        response_headers: if shows_exchange(s) {
            seq![
                ("Content-Type"@, json_type()),
                ("Content-Length"@, dec(s.size_bytes as nat)),
                ("X-Request-Id"@, s.id + "-req"@),
            ]
        } else {
            Seq::empty()
        },
        body_preview: if shows_exchange(s) {
            Some("{\"timestamp\":\""@ + s.timestamp + "\",\"data\":[...]}"@)
        } else {
            None
        },
        content_type: if shows_exchange(s) {
            Some(json_type())
        } else {
            None
        },
        certificate: demo_certificate(s.destination, dests),
        sources: seq![
            ("Attribution"@, "ok"@, "OpenSnitch"@),
            ("Capture"@, capture_source(s.visibility).0, capture_source(s.visibility).1),
            ("Décryptage"@, decryption_source(s.visibility).0, decryption_source(s.visibility).1),
            ("Keylog"@, "off"@, "Non utilisé pour ce flux"@),
        ],
    }
}

fn hex_padded_string(n: u32, width: usize) -> (r: String)
    ensures
        r@ == hex_padded(n as nat, width as nat),
{
    let digits = hex_chars(n as u64, true);
    let mut r = String::new();
    let mut k: usize = digits.len();
    while k < width
        invariant
            digits.len() <= k <= width || (k == digits.len() && width <= k),
            r@ == Seq::new((k - digits.len()) as nat, |_i: int| '0'),
        decreases width - k,
    {
        push_char(&mut r, '0');
        assert(r@ =~= Seq::new((k + 1 - digits.len()) as nat, |_i: int| '0'));
        k += 1;
    }
    let ghost zeros = r@;
    let mut i: usize = 0;
    while i < digits.len()
        invariant
            0 <= i <= digits@.len(),
            r@ == zeros + digits@.subrange(0, i as int),
        decreases digits@.len() - i,
    {
        push_char(&mut r, digits[i]);
        assert(r@ =~= zeros + digits@.subrange(0, i + 1));
        i += 1;
    }
    assert(digits@.subrange(0, digits@.len() as int) =~= digits@);
    if digits.len() < width {
        assert(zeros =~= Seq::new((width - digits@.len()) as nat, |_i: int| '0'));
    } else {
        assert(zeros =~= Seq::<char>::empty());
        assert(r@ =~= digits@);
    }
    r
}

/// The sum of the UTF-8 bytes of `domain`, wrapping around on 32 bits.
fn domain_byte_sum(domain: &str) -> (r: u32)
    ensures
        r == wrapping_byte_sum(encode_utf8(domain@)),
{
    let bytes = domain.as_bytes();
    let mut sum: u32 = 0;
    let mut i: usize = 0;
    assert(bytes@.subrange(0, 0).len() == 0);
    while i < bytes.len()
        invariant
            0 <= i <= bytes@.len(),
            bytes@ == encode_utf8(domain@),
            sum == wrapping_byte_sum(bytes@.subrange(0, i as int)),
        decreases bytes@.len() - i,
    {
        let t: u64 = sum as u64 + bytes[i] as u64;
        assert(bytes@.subrange(0, i + 1).drop_last() =~= bytes@.subrange(0, i as int));
        sum = if t > 0xFFFF_FFFF {
            (t - 0x1_0000_0000) as u32
        } else {
            t as u32
        };
        i += 1;
    }
    assert(bytes@.subrange(0, bytes@.len() as int) =~= bytes@);
    sum
}

/// The certificate seen by the local interception for `domain`, when the first destination
/// of that domain is decrypted.
pub fn certificate_for(domain: &str, destinations: &[DestinationTls]) -> (r: Option<CertificateInfo>)
    ensures
        match r {
            Some(c) => demo_certificate(domain@, destinations_view(destinations@)) == Some(c@),
            None => demo_certificate(domain@, destinations_view(destinations@)) is None,
        },
{
    let ghost dv = destinations_view(destinations@);
    let mut i: usize = 0;
    assert(dv.subrange(0, dv.len() as int) =~= dv);
    while i < destinations.len()
        invariant
            0 <= i <= destinations@.len(),
            dv == destinations_view(destinations@),
            first_tls(domain@, dv) == first_tls(domain@, dv.subrange(i as int, dv.len() as int)),
        decreases destinations@.len() - i,
    {
        let ghost rest = dv.subrange(i as int, dv.len() as int);
        assert(rest[0] == (destinations@[i as int].domain@, destinations@[i as int].tls));
        if str_eq(destinations[i].domain.as_str(), domain) {
            if !destinations[i].tls {
                return None;
            }
            let sum = domain_byte_sum(domain);
            let mut fingerprint = owned("SHA256:");
            let high = hex_padded_string(sum, 8);
            push_str(&mut fingerprint, high.as_str());
            push_str(&mut fingerprint, "...");
            let low = hex_padded_string(sum ^ 0xBEEF, 4);
            push_str(&mut fingerprint, low.as_str());
            return Some(
                CertificateInfo {
                    issuer: owned("Vitrail Local CA"),
                    subject: owned(domain),
                    valid_from: owned("2026-01-01T00:00:00Z"),
                    valid_to: owned("2027-01-01T00:00:00Z"),
                    fingerprint_sha256: fingerprint,
                },
            );
        }
        assert(rest.drop_first() =~= dv.subrange(i + 1, dv.len() as int));
        i += 1;
    }
    None
}

/// The flow of the demonstration session built from `seed`, the `index`-th one: its HTTP
/// exchange when decrypted with a request, its certificate, and its correlation sources.
pub fn build_flow(seed: FlowSeed, index: u16, destinations: &[DestinationTls]) -> (r: Flow)
    requires
        index <= 2076,
    ensures
        r@ == demo_flow(seed_view(seed), index, destinations_view(destinations@)),
{
    let shows = match (seed.visibility, seed.method) {
        (FlowVisibility::Fully, Some(_)) => true,
        _ => false,
    };
    let (request_headers, response_headers, body_preview, content_type) = if shows {
        http_exchange(&seed)
    } else {
        (Vec::new(), Vec::new(), None, None)
    };
    let method = match seed.method {
        Some(m) => Some(owned(m)),
        None => None,
    };
    let path = match seed.path {
        Some(p) => Some(owned(p)),
        None => None,
    };
    let flow = Flow {
        id: owned(seed.id),
        timestamp: owned(seed.timestamp),
        process: owned(seed.process),
        destination: owned(seed.destination),
        ip: owned(seed.ip),
        port: seed.port,
        protocol: owned(seed.protocol),
        size_bytes: seed.size_bytes,
        duration_ms: seed.duration_ms,
        visibility: seed.visibility,
        method,
        path,
        status: seed.status,
        source_ip: owned("192.168.1.42"),
        source_port: 51000 + index * 7,
        request_headers,
        response_headers,
        body_preview,
        content_type,
        certificate: certificate_for(seed.destination, destinations),
        sources: mock_sources(seed.visibility),
    };
    let ghost expected = demo_flow(seed_view(seed), index, destinations_view(destinations@));
    assert(shows == shows_exchange(seed_view(seed)));
    assert(flow@.request_headers == expected.request_headers);
    assert(flow@.response_headers == expected.response_headers);
    assert(flow@.body_preview == expected.body_preview);
    assert(flow@.content_type == expected.content_type);
    assert(flow@.certificate == expected.certificate);
    assert(flow@.sources == expected.sources);
    assert(flow@.method == expected.method);
    assert(flow@.path == expected.path);
    assert(flow@ =~= expected);
    flow
}

/// The ten flows of the demonstration session, in order, with the destinations they are
/// shown against.
pub fn flows(destinations: &[DestinationTls]) -> (r: Vec<Flow>)
    ensures
        r@.len() == 10,
        forall|i: int|
            0 <= i < 10 ==> (#[trigger] r@[i])@ == demo_flow(
                demo_seeds()[i],
                i as u16,
                destinations_view(destinations@),
            ),
{
    let seeds = flow_seeds();
    let ghost sv = seeds@.map_values(|s: FlowSeed| seed_view(s));
    let mut r: Vec<Flow> = Vec::new();
    let mut i: usize = 0;
    while i < seeds.len()
        invariant
            seeds@.len() == 10,
            sv == seeds@.map_values(|s: FlowSeed| seed_view(s)),
            sv == demo_seeds(),
            0 <= i <= 10,
            r@.len() == i,
            forall|k: int|
                0 <= k < i ==> (#[trigger] r@[k])@ == demo_flow(
                    demo_seeds()[k],
                    k as u16,
                    destinations_view(destinations@),
                ),
        decreases 10 - i,
    {
        assert(sv[i as int] == seed_view(seeds@[i as int]));
        let flow = build_flow(seeds[i], i as u16, destinations);
        r.push(flow);
        i += 1;
    }
    r
}

} // verus!
