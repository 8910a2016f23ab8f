//! Data types shared by every domain and by the user interface: flows as shown in the
//! timeline, the kill switch's status and teardown report, and the records of the
//! settings, alerts and search screens.

use vstd::prelude::*;

verus! {

/// How much of a flow could be observed.
#[derive(Debug, Clone, Copy, PartialEq, Eq, Structural)]
pub enum FlowVisibility {
    /// Decrypted content is available.
    Fully,
    /// Only network metadata (capture) is available.
    Meta,
    /// Only the owning process (attribution) is known.
    Attrib,
    /// Nothing is known.
    Unknown,
}

#[derive(Debug, Clone)]
pub struct HttpHeader {
    pub name: String,
    pub value: String,
}

#[derive(Debug, Clone)]
pub struct CertificateInfo {
    pub issuer: String,
    pub subject: String,
    pub valid_from: String,
    pub valid_to: String,
    pub fingerprint_sha256: String,
}

/// The state of one correlation source for one flow.
#[derive(Debug, Clone)]
pub struct CorrelationSource {
    pub name: String,
    pub status: String,
    pub detail: String,
}

/// One flow of the timeline: a connection seen by one or more sources.
#[derive(Debug, Clone)]
pub struct Flow {
    pub id: String,
    pub timestamp: String,
    pub process: String,
    pub destination: String,
    pub ip: String,
    pub port: u16,
    pub protocol: String,
    pub size_bytes: u64,
    pub duration_ms: u64,
    pub visibility: FlowVisibility,
    pub method: Option<String>,
    pub path: Option<String>,
    pub status: Option<u16>,
    pub source_ip: String,
    pub source_port: u16,
    pub request_headers: Vec<HttpHeader>,
    pub response_headers: Vec<HttpHeader>,
    pub body_preview: Option<String>,
    pub content_type: Option<String>,
    pub certificate: Option<CertificateInfo>,
    pub sources: Vec<CorrelationSource>,
}

#[derive(Debug, Clone)]
pub struct SubsystemStatus {
    pub id: String,
    pub name: String,
    pub detail: String,
    pub status: String,
}

#[derive(Debug, Clone)]
pub struct SystemStatus {
    pub kill_switch_state: String,
    pub subsystems: Vec<SubsystemStatus>,
    pub last_verification: Option<String>,
    pub last_verification_clean: bool,
}

/// The comparison of the state after a teardown with the state before activation.
#[derive(Debug, Clone)]
pub struct TeardownReport {
    pub clean: bool,
    pub divergences: Vec<String>,
    pub checked_at: String,
}

#[derive(Debug, Clone)]
pub struct Exclusion {
    pub name: String,
    pub kind: String,
}

#[derive(Debug, Clone)]
pub struct AlertRule {
    pub id: String,
    pub name: String,
    pub description: String,
    pub criteria: String,
    pub active: bool,
    pub trigger_count: u32,
}

#[derive(Debug, Clone)]
pub struct LogEntry {
    pub time: String,
    pub level: String,
    pub subsystem: String,
    pub message: String,
}

#[derive(Debug, Clone)]
pub struct AlertEvent {
    pub id: String,
    pub rule_id: String,
    pub flow_id: String,
    pub time: String,
    pub summary: String,
    pub visibility: FlowVisibility,
}

#[derive(Debug, Clone)]
pub struct SearchCriteria {
    pub process: Option<String>,
    pub destination: Option<String>,
    pub port: Option<String>,
    pub visibility: Option<FlowVisibility>,
    pub from: Option<String>,
    pub to: Option<String>,
    pub text: Option<String>,
}

#[derive(Debug, Clone)]
pub struct SavedQuery {
    pub id: String,
    pub name: String,
    pub criteria: SearchCriteria,
}

// ---------------------------------------------------------------------------------------
// Views: the mathematical value of each record, its strings taken as `Seq<char>`.
// ---------------------------------------------------------------------------------------

pub open spec fn opt_view(o: Option<String>) -> Option<Seq<char>> {
    match o {
        Some(s) => Some(s@),
        None => None,
    }
}

pub fn dup_opt(o: &Option<String>) -> (r: Option<String>)
    ensures
        opt_view(r) == opt_view(*o),
{
    match o {
        Some(s) => Some(s.clone()),
        None => None,
    }
}

pub open spec fn header_view(h: HttpHeader) -> (Seq<char>, Seq<char>) {
    (h.name@, h.value@)
}

pub open spec fn headers_view(v: Seq<HttpHeader>) -> Seq<(Seq<char>, Seq<char>)> {
    v.map_values(|h: HttpHeader| header_view(h))
}

pub fn dup_headers(v: &Vec<HttpHeader>) -> (r: Vec<HttpHeader>)
    ensures
        headers_view(r@) == headers_view(v@),
{
    let mut r: Vec<HttpHeader> = Vec::new();
    let mut i: usize = 0;
    while i < v.len()
        invariant
            0 <= i <= v@.len(),
            r@.len() == i,
            forall|k: int| 0 <= k < i ==> header_view(#[trigger] r@[k]) == header_view(v@[k]),
        decreases v@.len() - i,
    {
        let h = HttpHeader { name: v[i].name.clone(), value: v[i].value.clone() };
        r.push(h);
        i += 1;
    }
    assert(headers_view(r@) =~= headers_view(v@));
    r
}

pub open spec fn source_view(c: CorrelationSource) -> (Seq<char>, Seq<char>, Seq<char>) {
    (c.name@, c.status@, c.detail@)
}

pub open spec fn sources_view(v: Seq<CorrelationSource>) -> Seq<(Seq<char>, Seq<char>, Seq<char>)> {
    v.map_values(|c: CorrelationSource| source_view(c))
}

pub fn dup_sources(v: &Vec<CorrelationSource>) -> (r: Vec<CorrelationSource>)
    ensures
        sources_view(r@) == sources_view(v@),
{
    let mut r: Vec<CorrelationSource> = Vec::new();
    let mut i: usize = 0;
    while i < v.len()
        invariant
            0 <= i <= v@.len(),
            r@.len() == i,
            forall|k: int| 0 <= k < i ==> source_view(#[trigger] r@[k]) == source_view(v@[k]),
        decreases v@.len() - i,
    {
        let c = CorrelationSource {
            name: v[i].name.clone(),
            status: v[i].status.clone(),
            detail: v[i].detail.clone(),
        };
        r.push(c);
        i += 1;
    }
    assert(sources_view(r@) =~= sources_view(v@));
    r
}

#[verifier::ext_equal]
pub struct CertificateView {
    pub issuer: Seq<char>,
    pub subject: Seq<char>,
    pub valid_from: Seq<char>,
    pub valid_to: Seq<char>,
    pub fingerprint_sha256: Seq<char>,
}

impl View for CertificateInfo {
    type V = CertificateView;

    open spec fn view(&self) -> CertificateView {
        CertificateView {
            issuer: self.issuer@,
            subject: self.subject@,
            valid_from: self.valid_from@,
            valid_to: self.valid_to@,
            fingerprint_sha256: self.fingerprint_sha256@,
        }
    }
}

pub open spec fn strings_view(v: Seq<String>) -> Seq<Seq<char>> {
    v.map_values(|d: String| d@)
}

pub fn dup_strings(v: &Vec<String>) -> (r: Vec<String>)
    ensures
        strings_view(r@) == strings_view(v@),
{
    let mut r: Vec<String> = Vec::new();
    let mut i: usize = 0;
    while i < v.len()
        invariant
            0 <= i <= v@.len(),
            r@.len() == i,
            forall|k: int| 0 <= k < i ==> (#[trigger] r@[k])@ == v@[k]@,
        decreases v@.len() - i,
    {
        r.push(v[i].clone());
        i += 1;
    }
    assert(strings_view(r@) =~= strings_view(v@));
    r
}

impl TeardownReport {
    pub fn dup(&self) -> (r: TeardownReport)
        ensures
            r.clean == self.clean,
            strings_view(r.divergences@) == strings_view(self.divergences@),
            r.checked_at@ == self.checked_at@,
    {
        TeardownReport {
            clean: self.clean,
            divergences: dup_strings(&self.divergences),
            checked_at: self.checked_at.clone(),
        }
    }
}

impl CertificateInfo {
    pub fn dup(&self) -> (r: CertificateInfo)
        ensures
            r@ == self@,
    {
        CertificateInfo {
            issuer: self.issuer.clone(),
            subject: self.subject.clone(),
            valid_from: self.valid_from.clone(),
            valid_to: self.valid_to.clone(),
            fingerprint_sha256: self.fingerprint_sha256.clone(),
        }
    }
}

pub open spec fn cert_opt_view(c: Option<CertificateInfo>) -> Option<CertificateView> {
    match c {
        Some(x) => Some(x@),
        None => None,
    }
}

pub fn dup_cert_opt(c: &Option<CertificateInfo>) -> (r: Option<CertificateInfo>)
    ensures
        cert_opt_view(r) == cert_opt_view(*c),
{
    match c {
        Some(x) => Some(x.dup()),
        None => None,
    }
}

pub struct FlowView {
    pub id: Seq<char>,
    pub timestamp: Seq<char>,
    pub process: Seq<char>,
    pub destination: Seq<char>,
    pub ip: Seq<char>,
    pub port: u16,
    pub protocol: Seq<char>,
    pub size_bytes: u64,
    pub duration_ms: u64,
    pub visibility: FlowVisibility,
    pub method: Option<Seq<char>>,
    pub path: Option<Seq<char>>,
    pub status: Option<u16>,
    pub source_ip: Seq<char>,
    pub source_port: u16,
    pub request_headers: Seq<(Seq<char>, Seq<char>)>,
    pub response_headers: Seq<(Seq<char>, Seq<char>)>,
    pub body_preview: Option<Seq<char>>,
    pub content_type: Option<Seq<char>>,
    pub certificate: Option<CertificateView>,
    pub sources: Seq<(Seq<char>, Seq<char>, Seq<char>)>,
}

impl View for Flow {
    type V = FlowView;

    open spec fn view(&self) -> FlowView {
        FlowView {
            id: self.id@,
            timestamp: self.timestamp@,
            process: self.process@,
            destination: self.destination@,
            ip: self.ip@,
            port: self.port,
            protocol: self.protocol@,
            size_bytes: self.size_bytes,
            duration_ms: self.duration_ms,
            visibility: self.visibility,
            method: opt_view(self.method),
            path: opt_view(self.path),
            status: self.status,
            source_ip: self.source_ip@,
            source_port: self.source_port,
            request_headers: headers_view(self.request_headers@),
            response_headers: headers_view(self.response_headers@),
            body_preview: opt_view(self.body_preview),
            content_type: opt_view(self.content_type),
            certificate: cert_opt_view(self.certificate),
            sources: sources_view(self.sources@),
        }
    }
}

impl Flow {
    /// A copy of the flow.
    pub fn dup(&self) -> (r: Flow)
        ensures
            r@ == self@,
    {
        Flow {
            id: self.id.clone(),
            timestamp: self.timestamp.clone(),
            process: self.process.clone(),
            destination: self.destination.clone(),
            ip: self.ip.clone(),
            port: self.port,
            protocol: self.protocol.clone(),
            size_bytes: self.size_bytes,
            duration_ms: self.duration_ms,
            visibility: self.visibility,
            method: dup_opt(&self.method),
            path: dup_opt(&self.path),
            status: self.status,
            source_ip: self.source_ip.clone(),
            source_port: self.source_port,
            request_headers: dup_headers(&self.request_headers),
            response_headers: dup_headers(&self.response_headers),
            body_preview: dup_opt(&self.body_preview),
            content_type: dup_opt(&self.content_type),
            certificate: dup_cert_opt(&self.certificate),
            sources: dup_sources(&self.sources),
        }
    }
}

} // verus!
