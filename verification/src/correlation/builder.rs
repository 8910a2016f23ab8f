//! The flow shown in the timeline, built from the fragments that correlation gathered for
//! one connection. Fields that no source provided stay empty: nothing is made up.

use vstd::prelude::*;

use crate::attribution::{AttributionEvent, FiveTuple, TupleView};
use crate::capture::CapturedPacket;
use crate::clock::{format_hms_u64, hms, now_unix, now_unix_ms};
use crate::keylog::DecryptedFragment;
use crate::shared::{
    cert_opt_view, dup_cert_opt, dup_headers, dup_opt, headers_view, opt_view, sources_view,
    CertificateInfo, CorrelationSource, Flow, FlowView, HttpHeader,
};
use crate::text::{dec, owned, push_dec, push_str};

use super::visibility::{determine_visibility, visibility_of};

verus! {

/// The fragments gathered so far for one connection, and when the first one arrived
/// (milliseconds since the Unix epoch).
pub struct PendingFlow {
    pub five_tuple: FiveTuple,
    pub capture: Option<CapturedPacket>,
    pub attribution: Option<AttributionEvent>,
    pub decryption: Option<DecryptedFragment>,
    pub first_seen_ms: u64,
}

/// The value of a pending connection: its key, its fragments, when it was first seen.
pub struct PendingView {
    pub key: TupleView,
    pub capture: Option<CapturedPacket>,
    pub attribution: Option<AttributionEvent>,
    pub decryption: Option<DecryptedFragment>,
    pub first_seen_ms: u64,
}

impl View for PendingFlow {
    type V = PendingView;

    open spec fn view(&self) -> PendingView {
        PendingView {
            key: self.five_tuple@,
            capture: self.capture,
            attribution: self.attribution,
            decryption: self.decryption,
            first_seen_ms: self.first_seen_ms,
        }
    }
}

impl PendingFlow {
    /// A connection with no fragment yet, first seen at `now_ms`.
    pub fn new_at(five_tuple: FiveTuple, now_ms: u64) -> (p: PendingFlow)
        ensures
            p@ == (PendingView {
                key: five_tuple@,
                capture: None,
                attribution: None,
                decryption: None,
                first_seen_ms: now_ms,
            }),
    {
        PendingFlow { five_tuple, capture: None, attribution: None, decryption: None, first_seen_ms: now_ms }
    }

    /// A connection with no fragment yet, first seen now.
    pub fn new(five_tuple: FiveTuple) -> (p: PendingFlow)
        ensures
            p@.key == five_tuple@,
            p.capture is None,
            p.attribution is None,
            p.decryption is None,
    {
        PendingFlow::new_at(five_tuple, now_unix_ms())
    }
}

/// The decrypted content of a fragment, as it goes into a flow.
pub struct DecryptionContent {
    pub host: Option<String>,
    pub method: Option<String>,
    pub path: Option<String>,
    pub status: Option<u16>,
    pub request_headers: Vec<HttpHeader>,
    pub response_headers: Vec<HttpHeader>,
    pub body_preview: Option<String>,
    pub content_type: Option<String>,
    pub certificate: Option<CertificateInfo>,
}

impl DecryptionContent {
    /// The content carried by `fragment`, field for field.
    pub open spec fn matches(&self, fragment: DecryptedFragment) -> bool {
        &&& opt_view(self.host) == opt_view(fragment.host)
        &&& opt_view(self.method) == opt_view(fragment.method)
        &&& opt_view(self.path) == opt_view(fragment.path)
        &&& self.status == fragment.status
        &&& headers_view(self.request_headers@) == headers_view(fragment.request_headers@)
        &&& headers_view(self.response_headers@) == headers_view(fragment.response_headers@)
        &&& opt_view(self.body_preview) == opt_view(fragment.body_preview)
        &&& opt_view(self.content_type) == opt_view(fragment.content_type)
        &&& cert_opt_view(self.certificate) == cert_opt_view(fragment.certificate)
    }

    pub fn from_fragment(fragment: &DecryptedFragment) -> (c: DecryptionContent)
        ensures
            c.matches(*fragment),
    {
        DecryptionContent {
            host: dup_opt(&fragment.host),
            method: dup_opt(&fragment.method),
            path: dup_opt(&fragment.path),
            status: fragment.status,
            request_headers: dup_headers(&fragment.request_headers),
            response_headers: dup_headers(&fragment.response_headers),
            body_preview: dup_opt(&fragment.body_preview),
            content_type: dup_opt(&fragment.content_type),
            certificate: dup_cert_opt(&fragment.certificate),
        }
    }
}

/// The process shown when attribution did not contribute.
pub open spec fn unknown_process() -> Seq<char> {
    "Processus inconnu"@
}

pub open spec fn process_of(p: PendingView) -> Seq<char> {
    match p.attribution {
        Some(a) => a.app_name@,
        None => unknown_process(),
    }
}

/// The decrypted host, else the SNI seen by capture, else the destination address.
pub open spec fn destination_of(p: PendingView) -> Seq<char> {
    match p.decryption {
        Some(d) if d.host is Some => d.host->0@,
        _ => match p.capture {
            Some(c) if c.sni is Some => c.sni->0@,
            _ => p.key.dst_ip,
        },
    }
}

/// The application protocol detected by capture, else capture's transport protocol, else
/// the protocol of the connection key.
pub open spec fn protocol_of(p: PendingView) -> Seq<char> {
    match p.capture {
        Some(c) => match c.detected_protocol {
            Some(d) => d@,
            None => c.protocol@,
        },
        None => p.key.protocol,
    }
}

/// `protocol-src_ip-src_port-dst_ip-dst_port-sequence`: unique as long as the sequence
/// number is never reused.
pub open spec fn flow_id(t: TupleView, sequence: u64) -> Seq<char> {
    t.protocol + "-"@ + t.src_ip + "-"@ + dec(t.src_port as nat) + "-"@ + t.dst_ip + "-"@ + dec(
        t.dst_port as nat,
    ) + "-"@ + dec(sequence as nat)
}

pub open spec fn status_word(present: bool) -> Seq<char> {
    if present {
        "ok"@
    } else {
        "absent"@
    }
}

/// The four source entries of a flow: capture, attribution, the decryption proxy (never
/// a contributor here) and the key log.
pub open spec fn sources_for(capture: bool, attribution: bool, keylog: bool) -> Seq<
    (Seq<char>, Seq<char>, Seq<char>),
> {
    seq![
        (
            "Capture"@,
            status_word(capture),
            if capture {
                "Paquet vu dans la fenêtre de corrélation"@
            } else {
                "Aucun paquet vu dans la fenêtre de corrélation"@
            },
        ),
        (
            "Attribution"@,
            status_word(attribution),
            if attribution {
                "AskRule reçu (OpenSnitch)"@
            } else {
                "AskRule non reçu dans la fenêtre de corrélation"@
            },
        ),
        ("Décryptage"@, "absent"@, "EPIC 4 non livré"@),
        (
            "Keylog"@,
            status_word(keylog),
            if keylog {
                "Fragment déchiffré reçu via tshark (SSLKEYLOGFILE)"@
            } else {
                "EPIC 3 non livré"@
            },
        ),
    ]
}

/// The flow of a pending connection, numbered `sequence` and stamped at `now_secs`.
pub open spec fn flow_of(p: PendingView, sequence: u64, now_secs: nat) -> FlowView {
    let t = p.key;
    let d = p.decryption;
    FlowView {
        id: flow_id(t, sequence),
        timestamp: hms(now_secs),
        process: process_of(p),
        destination: destination_of(p),
        ip: t.dst_ip,
        port: t.dst_port,
        protocol: protocol_of(p),
        size_bytes: match p.capture {
            Some(c) => c.bytes as u64,
            None => 0,
        },
        duration_ms: 0,
        visibility: visibility_of(p.capture is Some, p.attribution is Some, false, d is Some),
        method: match d {
            Some(f) => opt_view(f.method),
            None => None,
        },
        path: match d {
            Some(f) => opt_view(f.path),
            None => None,
        },
        status: match d {
            Some(f) => f.status,
            None => None,
        },
        source_ip: t.src_ip,
        source_port: t.src_port,
        request_headers: match d {
            Some(f) => headers_view(f.request_headers@),
            None => Seq::empty(),
        },
        response_headers: match d {
            Some(f) => headers_view(f.response_headers@),
            None => Seq::empty(),
        },
        body_preview: match d {
            Some(f) => opt_view(f.body_preview),
            None => None,
        },
        content_type: match d {
            Some(f) => opt_view(f.content_type),
            None => None,
        },
        certificate: match d {
            Some(f) => cert_opt_view(f.certificate),
            None => None,
        },
        sources: sources_for(p.capture is Some, p.attribution is Some, d is Some),
    }
}

fn process_name(pending: &PendingFlow) -> (r: String)
    ensures
        r@ == process_of(pending@),
{
    match &pending.attribution {
        Some(event) => event.app_name.clone(),
        None => owned("Processus inconnu"),
    }
}

fn destination(pending: &PendingFlow) -> (r: String)
    ensures
        r@ == destination_of(pending@),
{
    if let Some(fragment) = &pending.decryption {
        if let Some(host) = &fragment.host {
            return host.clone();
        }
    }
    if let Some(packet) = &pending.capture {
        if let Some(sni) = &packet.sni {
            return sni.clone();
        }
    }
    pending.five_tuple.dst_ip.clone()
}

fn protocol(pending: &PendingFlow) -> (r: String)
    ensures
        r@ == protocol_of(pending@),
{
    if let Some(packet) = &pending.capture {
        if let Some(detected) = &packet.detected_protocol {
            return detected.clone();
        }
        return packet.protocol.clone();
    }
    pending.five_tuple.protocol.clone()
}

fn source(name: &str, status: &str, detail: &str) -> (c: CorrelationSource)
    ensures
        (c.name@, c.status@, c.detail@) == (name@, status@, detail@),
{
    CorrelationSource { name: owned(name), status: owned(status), detail: owned(detail) }
}

fn status_text(present: bool) -> (s: &'static str)
    ensures
        s@ == status_word(present),
{
    if present {
        "ok"
    } else {
        "absent"
    }
}

/// The source entries of a flow seen by the given sources.
pub fn build_sources(has_capture: bool, has_attribution: bool, has_keylog: bool) -> (v: Vec<
    CorrelationSource,
>)
    ensures
        sources_view(v@) == sources_for(has_capture, has_attribution, has_keylog),
{
    let capture_detail = if has_capture {
        "Paquet vu dans la fenêtre de corrélation"
    } else {
        "Aucun paquet vu dans la fenêtre de corrélation"
    };
    let attribution_detail = if has_attribution {
        "AskRule reçu (OpenSnitch)"
    } else {
        "AskRule non reçu dans la fenêtre de corrélation"
    };
    let keylog_detail = if has_keylog {
        "Fragment déchiffré reçu via tshark (SSLKEYLOGFILE)"
    } else {
        "EPIC 3 non livré"
    };
    let mut v: Vec<CorrelationSource> = Vec::new();
    v.push(source("Capture", status_text(has_capture), capture_detail));
    v.push(source("Attribution", status_text(has_attribution), attribution_detail));
    v.push(source("Décryptage", "absent", "EPIC 4 non livré"));
    v.push(source("Keylog", status_text(has_keylog), keylog_detail));
    assert(sources_view(v@) =~= sources_for(has_capture, has_attribution, has_keylog));
    v
}

/// The identifier of the flow numbered `sequence` on connection `tuple`.
pub fn flow_id_string(tuple: &FiveTuple, sequence: u64) -> (s: String)
    ensures
        s@ == flow_id(tuple@, sequence),
{
    let mut s = tuple.protocol.clone();
    push_str(&mut s, "-");
    push_str(&mut s, tuple.src_ip.as_str());
    push_str(&mut s, "-");
    push_dec(&mut s, tuple.src_port as u64);
    push_str(&mut s, "-");
    push_str(&mut s, tuple.dst_ip.as_str());
    push_str(&mut s, "-");
    push_dec(&mut s, tuple.dst_port as u64);
    push_str(&mut s, "-");
    push_dec(&mut s, sequence);
    assert(s@ =~= flow_id(tuple@, sequence));
    s
}

/// The flow of `pending`, numbered `sequence`, stamped at `now_secs` (Unix seconds).
pub fn build_flow_at(pending: &PendingFlow, sequence: u64, now_secs: u64) -> (f: Flow)
    ensures
        f@ == flow_of(pending@, sequence, now_secs as nat),
{
    let has_capture = pending.capture.is_some();
    let has_attribution = pending.attribution.is_some();
    let has_keylog = pending.decryption.is_some();
    let visibility = determine_visibility(has_capture, has_attribution, false, has_keylog);
    let content = match &pending.decryption {
        Some(fragment) => Some(DecryptionContent::from_fragment(fragment)),
        None => None,
    };
    let size_bytes: u64 = match &pending.capture {
        Some(c) => c.bytes as u64,
        None => 0,
    };
    let (method, path, status, request_headers, response_headers, body_preview, content_type, certificate) =
        match content {
        Some(c) => (
            c.method,
            c.path,
            c.status,
            c.request_headers,
            c.response_headers,
            c.body_preview,
            c.content_type,
            c.certificate,
        ),
        None => (None, None, None, Vec::new(), Vec::new(), None, None, None),
    };
    let f = Flow {
        id: flow_id_string(&pending.five_tuple, sequence),
        timestamp: format_hms_u64(now_secs),
        process: process_name(pending),
        destination: destination(pending),
        ip: pending.five_tuple.dst_ip.clone(),
        port: pending.five_tuple.dst_port,
        protocol: protocol(pending),
        size_bytes,
        duration_ms: 0,
        visibility,
        method,
        path,
        status,
        source_ip: pending.five_tuple.src_ip.clone(),
        source_port: pending.five_tuple.src_port,
        request_headers,
        response_headers,
        body_preview,
        content_type,
        certificate,
        sources: build_sources(has_capture, has_attribution, has_keylog),
    };
    assert(headers_view(Seq::<HttpHeader>::empty()) =~= Seq::empty());
    assert(f@ =~= flow_of(pending@, sequence, now_secs as nat));
    f
}

/// The flow of `pending`, numbered `sequence`, stamped with the current time of day.
pub fn build_flow(pending: &PendingFlow, sequence: u64) -> (f: Flow)
    ensures
        exists|t: nat| f@ == #[trigger] flow_of(pending@, sequence, t),
{
    build_flow_at(pending, sequence, now_unix())
}


/// The protocol of a built flow is the application protocol that capture detected when it
/// detected one, else the transport protocol of the captured packet, else the connection's.
pub proof fn lemma_flow_protocol_prefers_detected(p: PendingView, sequence: u64, now_secs: nat)
    ensures
        p.capture matches Some(c) ==> (c.detected_protocol matches Some(d) ==> flow_of(
            p,
            sequence,
            now_secs,
        ).protocol == d@),
        p.capture matches Some(c) ==> (c.detected_protocol is None ==> flow_of(p, sequence, now_secs).protocol
            == c.protocol@),
        p.capture is None ==> flow_of(p, sequence, now_secs).protocol == p.key.protocol,
{
}

} // verus!
