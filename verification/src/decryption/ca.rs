//! The local CA dedicated to Vitrail: generated by `rcgen`, fingerprinted with SHA-256,
//! installed in the system trust store by the helper and recorded in storage. A CA is never
//! reused from elsewhere; stopping the domain keeps the CA installed.

use vstd::prelude::*;

use crate::killswitch::{exec_error, KillSwitchError, Subsystem};
use crate::paths::{join, path_join, vitrail_dir, opt_str_view, vitrail_data_dir};
use crate::storage::decryption::{ca_opt_view, ca_view, get_ca, save_ca};
use crate::storage::{CaMetadata, StorageHandle};
use crate::text::{hex_bytes, hex_encode, owned, push_str};

use super::helper_backend::{outcome_error, HelperBackend};

verus! {

#[verifier::external_type_specification]
#[verifier::external_body]
pub struct ExKeyPair(rcgen::KeyPair);

#[verifier::external_type_specification]
#[verifier::external_body]
pub struct ExCertificate(rcgen::Certificate);

#[verifier::external_type_specification]
#[verifier::external_body]
pub struct ExRcgenError(rcgen::Error);

/// What SHA-256 gives for a sequence of bytes.
pub uninterp spec fn sha256_of(data: Seq<u8>) -> Seq<u8>;

/// `sha2::Sha256::digest`; its result is named `sha256_of` and is 32 bytes long.
#[verifier::external_body]
fn sha256(data: &[u8]) -> (r: Vec<u8>)
    ensures
        r@ == sha256_of(data@),
        r@.len() == 32,
{
    <sha2::Sha256 as sha2::Digest>::digest(data).to_vec()
}

/// `rcgen::KeyPair::generate`: a fresh random ECDSA P-256 key pair. Nothing is stated of it.
#[verifier::external_body]
fn key_pair_generate() -> Result<rcgen::KeyPair, rcgen::Error> {
    rcgen::KeyPair::generate()
}

/// The limit on the chain of intermediate CAs below a CA certificate.
#[derive(Clone, Copy, Debug, PartialEq, Eq, Structural)]
pub enum PathLen {
    Unconstrained,
    Constrained(u8),
}

/// Whether a certificate may sign other certificates.
#[derive(Clone, Copy, Debug, PartialEq, Eq, Structural)]
pub enum CaKind {
    /// It signs only itself.
    NoCa,
    /// It signs only itself, and says so with `CA:FALSE`.
    ExplicitNoCa,
    /// It may sign other certificates.
    Ca(PathLen),
}

/// What the library chooses of a self-signed certificate: its subject's common name and
/// whether it is a CA.
pub struct CertParams {
    pub common_name: String,
    pub is_ca: CaKind,
}

/// The parameters of the CA: named `Vitrail Local Root CA`, allowed to sign certificates
/// with no limit on intermediate CAs.
pub fn ca_params() -> (p: CertParams)
    ensures
        p.common_name@ == "Vitrail Local Root CA"@,
        p.is_ca == CaKind::Ca(PathLen::Unconstrained),
{
    CertParams { common_name: owned("Vitrail Local Root CA"), is_ca: CaKind::Ca(PathLen::Unconstrained) }
}

/// `rcgen::CertificateParams::self_signed` on default parameters with the given common name
/// and CA constraint, signed with `key_pair`. The certificate depends on the random key, so
/// nothing is stated of it.
#[verifier::external_body]
fn self_signed(params: &CertParams, key_pair: &rcgen::KeyPair) -> Result<rcgen::Certificate, rcgen::Error> {
    let mut p = rcgen::CertificateParams::default();
    p.distinguished_name.push(rcgen::DnType::CommonName, params.common_name.as_str());
    p.is_ca = match params.is_ca {
        CaKind::NoCa => rcgen::IsCa::NoCa,
        CaKind::ExplicitNoCa => rcgen::IsCa::ExplicitNoCa,
        CaKind::Ca(PathLen::Unconstrained) => rcgen::IsCa::Ca(rcgen::BasicConstraints::Unconstrained),
        CaKind::Ca(PathLen::Constrained(n)) => rcgen::IsCa::Ca(rcgen::BasicConstraints::Constrained(n)),
    };
    p.self_signed(key_pair)
}

/// What `rcgen::Certificate::pem` gives for a certificate whose DER encoding is `der`: it
/// encodes those bytes alone, as a PEM block labelled `CERTIFICATE`.
pub uninterp spec fn pem_of(der: Seq<u8>) -> Seq<char>;

/// `rcgen::Certificate::der` and `rcgen::Certificate::pem` of one certificate: its DER bytes,
/// and its PEM, which is `pem_of` those bytes.
#[verifier::external_body]
fn certificate_der_pem(cert: &rcgen::Certificate) -> (r: (Vec<u8>, String))
    ensures
        r.1@ == pem_of(r.0@),
{
    (cert.der().to_vec(), cert.pem())
}

/// `rcgen::KeyPair::serialize_pem`.
#[verifier::external_body]
fn key_pair_pem(key_pair: &rcgen::KeyPair) -> String {
    key_pair.serialize_pem()
}

/// The text of an `rcgen` error (its `Display`).
#[verifier::external_body]
fn rcgen_error_text(error: &rcgen::Error) -> String {
    error.to_string()
}

/// Two hexadecimal digits per byte.
pub proof fn lemma_hex_bytes_len(bytes: Seq<u8>)
    ensures
        hex_bytes(bytes).len() == 2 * bytes.len(),
    decreases bytes.len(),
{
    if bytes.len() > 0 {
        lemma_hex_bytes_len(bytes.drop_last());
    }
}

/// The SHA-256 fingerprint of a DER certificate, in lower-case hexadecimal (64 digits).
pub fn fingerprint_der(der: &[u8]) -> (r: String)
    ensures
        r@ == hex_bytes(sha256_of(der@)),
        r@.len() == 64,
{
    let digest = sha256(der);
    proof {
        lemma_hex_bytes_len(digest@);
    }
    hex_encode(&digest)
}

/// A PEM certificate and a fingerprint of the same certificate: for its DER bytes, the PEM
/// that `rcgen` writes and the SHA-256 in hexadecimal.
pub open spec fn fingerprints(cert_pem: Seq<char>, fingerprint: Seq<char>) -> bool {
    exists|der: Seq<u8>| #[trigger] pem_of(der) == cert_pem && fingerprint == hex_bytes(sha256_of(der))
}

/// The two errors of the generation of a CA: the key pair, then the self-signature.
pub open spec fn ca_generation_error(e: Seq<char>) -> bool {
    ||| "génération de clé échouée: "@.is_prefix_of(e)
    ||| "auto-signature de la CA échouée: "@.is_prefix_of(e)
}

/// A freshly generated CA: certificate and private key in PEM, and the fingerprint of the
/// certificate.
pub struct CaMaterial {
    pub cert_pem: String,
    pub key_pem: String,
    pub fingerprint: String,
}

fn step_error(prefix: &str, error: &rcgen::Error) -> (m: String)
    ensures
        prefix@.is_prefix_of(m@),
{
    let mut m = owned(prefix);
    push_str(&mut m, rcgen_error_text(error).as_str());
    assert(m@.subrange(0, prefix@.len() as int) =~= prefix@);
    m
}

/// Generates a new CA with `ca_params`: a random key pair, then the certificate signed with
/// it. The fingerprint is that of the certificate returned in PEM. The error says which step
/// failed.
pub fn generate_ca() -> (r: Result<CaMaterial, String>)
    ensures
        r matches Ok(m) ==> fingerprints(m.cert_pem@, m.fingerprint@) && m.fingerprint@.len() == 64,
        r matches Err(e) ==> ca_generation_error(e@),
{
    let key_pair = match key_pair_generate() {
        Ok(k) => k,
        Err(error) => {
            return Err(step_error("génération de clé échouée: ", &error));
        },
    };
    let params = ca_params();
    let cert = match self_signed(&params, &key_pair) {
        Ok(c) => c,
        Err(error) => {
            return Err(step_error("auto-signature de la CA échouée: ", &error));
        },
    };
    let (der, cert_pem) = certificate_der_pem(&cert);
    let fingerprint = fingerprint_der(&der);
    assert(pem_of(der@) == cert_pem@);
    Ok(CaMaterial { cert_pem, key_pem: key_pair_pem(&key_pair), fingerprint })
}

/// Where the CA's files live: `<data>/vitrail/ca`.
pub fn ca_dir(xdg_data_home: Option<&str>, home: Option<&str>) -> (r: String)
    ensures
        r@ == path_join(vitrail_dir(opt_str_view(xdg_data_home), opt_str_view(home)), "ca"@),
{
    let base = vitrail_data_dir(xdg_data_home, home);
    join(base.as_str(), "ca")
}

/// Installs the CA at `cert_path` in the trust store, then records its metadata; nothing is
/// recorded when the installation fails.
pub fn install_and_record<H: HelperBackend + ?Sized>(
    storage: &mut StorageHandle,
    helper: &mut H,
    cert_path: &str,
    key_path: &str,
    fingerprint: &str,
) -> (r: Result<CaMetadata, String>)
    ensures
        match r {
            Ok(m) => ca_view(m) == (cert_path@, key_path@, fingerprint@) && ca_opt_view(
                final(storage).ca,
            ) == Some(ca_view(m)),
            Err(_) => *final(storage) == *old(storage),
        },
        final(storage).flows == old(storage).flows,
        final(storage).exclusions == old(storage).exclusions,
        final(helper).spec_redirect() == old(helper).spec_redirect(),
        final(helper).spec_trust_requests() == old(helper).spec_trust_requests().push(
            (true, cert_path@),
        ),
        final(helper).spec_trust_outcomes() == old(helper).spec_trust_outcomes().push(outcome_error(r)),
{
    match helper.install_ca(cert_path) {
        Ok(()) => {},
        Err(error) => {
            return Err(error);
        },
    }
    let metadata = CaMetadata {
        cert_path: owned(cert_path),
        key_path: owned(key_path),
        fingerprint_sha256: owned(fingerprint),
    };
    match save_ca(storage, &metadata) {
        Ok(()) => Ok(metadata),
        Err(error) => Err(error.message),
    }
}

/// A CA is generated only when none is recorded or its certificate file is gone.
pub fn ca_needs_generation(existing: &Option<CaMetadata>, cert_file_exists: bool) -> (b: bool)
    ensures
        b == (existing is None || !cert_file_exists),
{
    match existing {
        Some(_) => !cert_file_exists,
        None => true,
    }
}

/// The first half of a rotation: the recorded CA, if any, is removed from the trust store by
/// its exact fingerprint (a failure there does not stop the rotation). Whether one was
/// recorded.
pub fn remove_recorded_ca<H: HelperBackend + ?Sized>(storage: &StorageHandle, helper: &mut H) -> (r: bool)
    ensures
        r == (storage.ca is Some),
        final(helper).spec_redirect() == old(helper).spec_redirect(),
        final(helper).spec_trust_requests() == match storage.ca {
            Some(m) => old(helper).spec_trust_requests().push((false, m.fingerprint_sha256@)),
            None => old(helper).spec_trust_requests(),
        },
{
    match get_ca(storage) {
        Ok(Some(existing)) => {
            let _ = helper.remove_ca(existing.fingerprint_sha256.as_str());
            true
        },
        _ => false,
    }
}

/// The file operations that the CA needs (the real file system in the application).
pub trait CaFiles {
    fn file_exists(&self, path: &str) -> bool;

    fn create_dir_all(&mut self, path: &str) -> Result<(), String>;

    fn write_public(&mut self, path: &str, content: &str) -> Result<(), String>;

    /// Writes a file readable by its owner only, from its creation on.
    fn write_private(&mut self, path: &str, content: &str) -> Result<(), String>;
}

/// One file operation of the CA with its answer.
pub enum CaFileOp {
    /// Whether a file exists.
    Exists(Seq<char>, bool),
    /// A directory created, and whether it succeeded.
    CreateDir(Seq<char>, bool),
    /// A file written readable by all, and whether it succeeded.
    WritePublic(Seq<char>, Seq<char>, bool),
    /// A file written readable by its owner only, and whether it succeeded.
    WritePrivate(Seq<char>, Seq<char>, bool),
}

/// The files of the CA, each operation recorded with its answer.
pub trait CaStore {
    /// The operations made, in order.
    spec fn spec_ops(&self) -> Seq<CaFileOp>;

    fn file_exists(&mut self, path: &str) -> (b: bool)
        ensures
            final(self).spec_ops() == old(self).spec_ops().push(CaFileOp::Exists(path@, b)),
    ;

    fn create_dir_all(&mut self, path: &str) -> (r: Result<(), String>)
        ensures
            final(self).spec_ops() == old(self).spec_ops().push(CaFileOp::CreateDir(path@, r is Ok)),
    ;

    fn write_public(&mut self, path: &str, content: &str) -> (r: Result<(), String>)
        ensures
            final(self).spec_ops() == old(self).spec_ops().push(
                CaFileOp::WritePublic(path@, content@, r is Ok),
            ),
    ;

    fn write_private(&mut self, path: &str, content: &str) -> (r: Result<(), String>)
        ensures
            final(self).spec_ops() == old(self).spec_ops().push(
                CaFileOp::WritePrivate(path@, content@, r is Ok),
            ),
    ;
}

/// The CA's files through the application's file operations, each recorded.
pub struct LoggedCaFiles<F: CaFiles> {
    files: F,
    ops: Ghost<Seq<CaFileOp>>,
}

impl<F: CaFiles> LoggedCaFiles<F> {
    pub closed spec fn spec_inner(&self) -> F {
        self.files
    }

    pub fn new(files: F) -> (s: LoggedCaFiles<F>)
        ensures
            s.spec_inner() == files,
            s.spec_ops().len() == 0,
    {
        LoggedCaFiles { files, ops: Ghost(Seq::empty()) }
    }

    /// The file operations themselves.
    pub fn inner(&self) -> (r: &F)
        ensures
            *r == self.spec_inner(),
    {
        &self.files
    }
}

impl<F: CaFiles> CaStore for LoggedCaFiles<F> {
    closed spec fn spec_ops(&self) -> Seq<CaFileOp> {
        self.ops@
    }

    fn file_exists(&mut self, path: &str) -> (b: bool) {
        let b = self.files.file_exists(path);
        proof {
            self.ops@ = self.ops@.push(CaFileOp::Exists(path@, b));
        }
        b
    }

    fn create_dir_all(&mut self, path: &str) -> (r: Result<(), String>) {
        let r = self.files.create_dir_all(path);
        proof {
            self.ops@ = self.ops@.push(CaFileOp::CreateDir(path@, r is Ok));
        }
        r
    }

    fn write_public(&mut self, path: &str, content: &str) -> (r: Result<(), String>) {
        let r = self.files.write_public(path, content);
        proof {
            self.ops@ = self.ops@.push(CaFileOp::WritePublic(path@, content@, r is Ok));
        }
        r
    }

    fn write_private(&mut self, path: &str, content: &str) -> (r: Result<(), String>) {
        let r = self.files.write_private(path, content);
        proof {
            self.ops@ = self.ops@.push(CaFileOp::WritePrivate(path@, content@, r is Ok));
        }
        r
    }
}

/// Where the CA's certificate is written: `<data>/vitrail/ca/ca.pem`.
pub open spec fn ca_cert_path(xdg: Option<Seq<char>>, home: Option<Seq<char>>) -> Seq<char> {
    path_join(path_join(vitrail_dir(xdg, home), "ca"@), "ca.pem"@)
}

/// Where the CA's private key is written: `<data>/vitrail/ca/ca.key`.
pub open spec fn ca_key_path(xdg: Option<Seq<char>>, home: Option<Seq<char>>) -> Seq<char> {
    path_join(path_join(vitrail_dir(xdg, home), "ca"@), "ca.key"@)
}

/// A new CA for the storage `s1` after `s0`: its files where the CA lives, its fingerprint the
/// SHA-256 of a certificate (64 hexadecimal digits), and it is the recorded CA.
pub open spec fn new_ca_recorded(
    m: CaMetadata,
    s0: StorageHandle,
    s1: StorageHandle,
    xdg: Option<Seq<char>>,
    home: Option<Seq<char>>,
) -> bool {
    &&& m.cert_path@ == ca_cert_path(xdg, home)
    &&& m.key_path@ == ca_key_path(xdg, home)
    &&& exists|der: Seq<u8>| m.fingerprint_sha256@ == #[trigger] hex_bytes(sha256_of(der))
    &&& m.fingerprint_sha256@.len() == 64
    &&& ca_opt_view(s1.ca) == Some(ca_view(m))
}

/// The files of a new CA: its directory created, its certificate written readable by all,
/// then its private key written readable by its owner only.
pub open spec fn ca_files_written(
    before: Seq<CaFileOp>,
    after: Seq<CaFileOp>,
    xdg: Option<Seq<char>>,
    home: Option<Seq<char>>,
    cert_pem: Seq<char>,
    key_pem: Seq<char>,
) -> bool {
    after == before + seq![
        CaFileOp::CreateDir(path_join(vitrail_dir(xdg, home), "ca"@), true),
        CaFileOp::WritePublic(ca_cert_path(xdg, home), cert_pem, true),
        CaFileOp::WritePrivate(ca_key_path(xdg, home), key_pem, true),
    ]
}

/// The files of the new CA `m`, written between the file operations `before` and `after`:
/// the certificate written is the one whose fingerprint `m` records.
pub open spec fn new_ca_files(
    m: CaMetadata,
    before: Seq<CaFileOp>,
    after: Seq<CaFileOp>,
    xdg: Option<Seq<char>>,
    home: Option<Seq<char>>,
) -> bool {
    exists|cert_pem: Seq<char>, key_pem: Seq<char>|
        #[trigger] ca_files_written(before, after, xdg, home, cert_pem, key_pem) && fingerprints(
            cert_pem,
            m.fingerprint_sha256@,
        )
}

/// Generates a new CA, writes its certificate and its private key (owner only) where the CA
/// lives, installs it in the trust store and records it. On failure the storage is unchanged.
pub fn generate_and_install<H: HelperBackend + ?Sized, F: CaStore + ?Sized>(
    storage: &mut StorageHandle,
    helper: &mut H,
    files: &mut F,
    xdg_data_home: Option<&str>,
    home: Option<&str>,
) -> (r: Result<CaMetadata, String>)
    ensures
        match r {
            Ok(m) => new_ca_recorded(
                m,
                *old(storage),
                *final(storage),
                opt_str_view(xdg_data_home),
                opt_str_view(home),
            ),
            Err(_) => *final(storage) == *old(storage),
        },
        final(storage).flows == old(storage).flows,
        final(storage).exclusions == old(storage).exclusions,
        final(helper).spec_redirect() == old(helper).spec_redirect(),
        r is Ok ==> final(helper).spec_trust_requests() == old(helper).spec_trust_requests().push(
            (true, ca_cert_path(opt_str_view(xdg_data_home), opt_str_view(home))),
        ),
        final(helper).spec_trust_requests() == old(helper).spec_trust_requests()
            || final(helper).spec_trust_requests() == old(helper).spec_trust_requests().push(
            (true, ca_cert_path(opt_str_view(xdg_data_home), opt_str_view(home))),
        ),
        final(helper).spec_trust_requests() != old(helper).spec_trust_requests()
            ==> final(helper).spec_trust_outcomes() == old(helper).spec_trust_outcomes().push(
            outcome_error(r),
        ),
        final(helper).spec_trust_requests() == old(helper).spec_trust_requests() ==> r is Err,
        final(files).spec_ops().len() >= old(files).spec_ops().len(),
        final(files).spec_ops().subrange(0, old(files).spec_ops().len() as int) == old(files).spec_ops(),
        r matches Ok(m) ==> new_ca_files(
            m,
            old(files).spec_ops(),
            final(files).spec_ops(),
            opt_str_view(xdg_data_home),
            opt_str_view(home),
        ),
        r matches Err(e) ==> ca_generation_error(e@) || final(files).spec_ops().len() > old(
            files,
        ).spec_ops().len(),
{
    let ghost ops0 = files.spec_ops();
    let material = match generate_ca() {
        Ok(m) => m,
        Err(error) => {
            return Err(error);
        },
    };
    let dir = ca_dir(xdg_data_home, home);
    match files.create_dir_all(dir.as_str()) {
        Ok(()) => {},
        Err(error) => {
            let mut m = owned("création de ");
            push_str(&mut m, dir.as_str());
            push_str(&mut m, " échouée: ");
            push_str(&mut m, error.as_str());
            return Err(m);
        },
    }
    let cert_path = join(dir.as_str(), "ca.pem");
    let key_path = join(dir.as_str(), "ca.key");
    match files.write_public(cert_path.as_str(), material.cert_pem.as_str()) {
        Ok(()) => {},
        Err(error) => {
            let mut m = owned("écriture du certificat CA échouée: ");
            push_str(&mut m, error.as_str());
            return Err(m);
        },
    }
    match files.write_private(key_path.as_str(), material.key_pem.as_str()) {
        Ok(()) => {},
        Err(error) => {
            return Err(error);
        },
    }
    assert(files.spec_ops() =~= ops0 + seq![
        CaFileOp::CreateDir(dir@, true),
        CaFileOp::WritePublic(cert_path@, material.cert_pem@, true),
        CaFileOp::WritePrivate(key_path@, material.key_pem@, true),
    ]);
    assert(ca_files_written(
        ops0,
        files.spec_ops(),
        opt_str_view(xdg_data_home),
        opt_str_view(home),
        material.cert_pem@,
        material.key_pem@,
    ));
    let ghost requests0 = helper.spec_trust_requests();
    let r = install_and_record(storage, helper, cert_path.as_str(), key_path.as_str(), material.fingerprint.as_str());
    assert(helper.spec_trust_requests().len() == requests0.len() + 1);
    assert(files.spec_ops().subrange(0, ops0.len() as int) =~= ops0);
    proof {
        if r is Ok {
            assert(new_ca_files(
                r->Ok_0,
                ops0,
                files.spec_ops(),
                opt_str_view(xdg_data_home),
                opt_str_view(home),
            ));
        }
    }
    r
}

/// The trust-store requests after the removal of the recorded CA, if any, by its
/// fingerprint.
pub open spec fn removal_of(requests: Seq<(bool, Seq<char>)>, recorded: Option<CaMetadata>) -> Seq<
    (bool, Seq<char>),
> {
    match recorded {
        Some(m) => requests.push((false, m.fingerprint_sha256@)),
        None => requests,
    }
}

/// Replaces the CA by a new one: the recorded CA is removed from the trust store by its
/// fingerprint (its failure does not stop the rotation), then a new CA is generated and
/// installed.
pub fn rotate_ca<H: HelperBackend + ?Sized, F: CaStore + ?Sized>(
    storage: &mut StorageHandle,
    helper: &mut H,
    files: &mut F,
    xdg_data_home: Option<&str>,
    home: Option<&str>,
) -> (r: Result<CaMetadata, String>)
    ensures
        match r {
            Ok(m) => new_ca_recorded(
                m,
                *old(storage),
                *final(storage),
                opt_str_view(xdg_data_home),
                opt_str_view(home),
            ),
            Err(_) => *final(storage) == *old(storage),
        },
        final(helper).spec_redirect() == old(helper).spec_redirect(),
        r is Ok ==> final(helper).spec_trust_requests() == removal_of(
            old(helper).spec_trust_requests(),
            old(storage).ca,
        ).push((true, ca_cert_path(opt_str_view(xdg_data_home), opt_str_view(home)))),
        final(helper).spec_trust_requests() == removal_of(
            old(helper).spec_trust_requests(),
            old(storage).ca,
        ) || final(helper).spec_trust_requests() == removal_of(
            old(helper).spec_trust_requests(),
            old(storage).ca,
        ).push((true, ca_cert_path(opt_str_view(xdg_data_home), opt_str_view(home)))),
        r matches Ok(m) ==> new_ca_files(
            m,
            old(files).spec_ops(),
            final(files).spec_ops(),
            opt_str_view(xdg_data_home),
            opt_str_view(home),
        ),
{
    let _ = remove_recorded_ca(storage, helper);
    generate_and_install(storage, helper, files, xdg_data_home, home)
}

fn opt_ref(o: &Option<String>) -> (r: Option<&str>)
    ensures
        opt_str_view(r) == crate::shared::opt_view(*o),
{
    match o {
        Some(s) => Some(s.as_str()),
        None => None,
    }
}

/// The CA domain: a start generates and installs a CA only when none is recorded or its
/// certificate is gone (so it is idempotent); a stop keeps the CA installed, since removing
/// it would ask the user to trust a new one at every activation.
pub struct CaSubsystem<H: HelperBackend, F: CaFiles> {
    active: bool,
    storage: StorageHandle,
    helper: H,
    files: LoggedCaFiles<F>,
    xdg_data_home: Option<String>,
    home: Option<String>,
    calls: Ghost<Seq<(bool, bool)>>,
}

impl<H: HelperBackend, F: CaFiles> CaSubsystem<H, F> {
    pub closed spec fn store(&self) -> StorageHandle {
        self.storage
    }

    pub closed spec fn trust(&self) -> H {
        self.helper
    }

    pub closed spec fn spec_files(&self) -> F {
        self.files.spec_inner()
    }

    /// The operations made on the CA's files, in order.
    pub closed spec fn spec_file_ops(&self) -> Seq<CaFileOp> {
        self.files.spec_ops()
    }

    /// `$XDG_DATA_HOME` and `$HOME` as given, where the CA's files go.
    pub closed spec fn spec_dirs(&self) -> (Option<Seq<char>>, Option<Seq<char>>) {
        (crate::shared::opt_view(self.xdg_data_home), crate::shared::opt_view(self.home))
    }

    pub fn new(
        storage: StorageHandle,
        helper: H,
        files: F,
        xdg_data_home: Option<String>,
        home: Option<String>,
    ) -> (s: CaSubsystem<H, F>)
        ensures
            s.spec_name() == "ca"@,
            !s.spec_active(),
            s.store() == storage,
            s.trust() == helper,
            s.spec_files() == files,
            s.spec_file_ops().len() == 0,
            s.spec_dirs() == (crate::shared::opt_view(xdg_data_home), crate::shared::opt_view(home)),
    {
        CaSubsystem {
            active: false,
            storage,
            helper,
            files: LoggedCaFiles::new(files),
            xdg_data_home,
            home,
            calls: Ghost(Seq::empty()),
        }
    }

    pub fn storage(&self) -> (r: &StorageHandle)
        ensures
            *r == self.store(),
    {
        &self.storage
    }

    pub fn helper(&self) -> (r: &H)
        ensures
            *r == self.trust(),
    {
        &self.helper
    }

    pub fn files(&self) -> (r: &F)
        ensures
            *r == self.spec_files(),
    {
        self.files.inner()
    }
}

impl<H: HelperBackend, F: CaFiles> Subsystem for CaSubsystem<H, F> {
    closed spec fn spec_name(&self) -> Seq<char> {
        "ca"@
    }

    closed spec fn spec_active(&self) -> bool {
        self.active
    }

    closed spec fn spec_calls(&self) -> Seq<(bool, bool)> {
        self.calls@
    }

    /// It drives the system, which may refuse.
    closed spec fn spec_reliable(&self) -> bool {
        false
    }

    fn name(&self) -> (n: &'static str) {
        "ca"
    }

    fn start(&mut self) -> (r: Result<(), KillSwitchError>)
        ensures
            ca_start_outcome(*old(self), *final(self), r),
            old(self).store().ca is Some ==> final(self).store().ca is Some,
            r is Err ==> final(self).store() == old(self).store(),
            r is Ok ==> final(self).store() == old(self).store() || exists|m: CaMetadata|
                new_ca_recorded(
                    m,
                    old(self).store(),
                    #[trigger] final(self).store(),
                    old(self).spec_dirs().0,
                    old(self).spec_dirs().1,
                ),
            old(self).store().ca is None && r is Ok ==> exists|m: CaMetadata|
                #[trigger] new_ca_recorded(
                    m,
                    old(self).store(),
                    final(self).store(),
                    old(self).spec_dirs().0,
                    old(self).spec_dirs().1,
                ) && new_ca_files(
                    m,
                    old(self).spec_file_ops(),
                    final(self).spec_file_ops(),
                    old(self).spec_dirs().0,
                    old(self).spec_dirs().1,
                ),
            old(self).store().ca is Some && r is Ok && final(self).spec_file_ops().len() > old(
                self,
            ).spec_file_ops().len() && final(self).spec_file_ops()[old(self).spec_file_ops().len() as int]
                == CaFileOp::Exists(old(self).store().ca.unwrap().cert_path@, false) ==> exists|m: CaMetadata|
                #[trigger] new_ca_recorded(
                    m,
                    old(self).store(),
                    final(self).store(),
                    old(self).spec_dirs().0,
                    old(self).spec_dirs().1,
                ) && new_ca_files(
                    m,
                    old(self).spec_file_ops().push(
                        CaFileOp::Exists(old(self).store().ca.unwrap().cert_path@, false),
                    ),
                    final(self).spec_file_ops(),
                    old(self).spec_dirs().0,
                    old(self).spec_dirs().1,
                ),
            r matches Err(e) ==> (e matches KillSwitchError::SubsystemExec { subsystem, reason: _ }
                && subsystem@ == "ca"@),
            final(self).spec_dirs() == old(self).spec_dirs(),
            old(self).store().ca is None && r is Ok ==> final(self).trust().spec_trust_requests()
                == old(self).trust().spec_trust_requests().push(
                (true, ca_cert_path(old(self).spec_dirs().0, old(self).spec_dirs().1)),
            ),
    {
        let existing = match get_ca(&self.storage) {
            Ok(e) => e,
            Err(_) => None,
        };
        let cert_exists = match &existing {
            Some(m) => self.files.file_exists(m.cert_path.as_str()),
            None => false,
        };
        let ghost mid = self.files.spec_ops();
        let ghost n = old(self).spec_file_ops().len();
        if ca_needs_generation(&existing, cert_exists) {
            let xdg = opt_ref(&self.xdg_data_home);
            let home = opt_ref(&self.home);
            let generated = generate_and_install(&mut self.storage, &mut self.helper, &mut self.files, xdg, home);
            proof {
                if existing is Some {
                    assert(self.files.spec_ops().subrange(0, mid.len() as int)[n as int] == mid[n as int]);
                }
            }
            match generated {
                Ok(m) => {
                    assert(new_ca_recorded(
                        m,
                        old(self).store(),
                        self.store(),
                        old(self).spec_dirs().0,
                        old(self).spec_dirs().1,
                    ));
                    assert(new_ca_files(m, mid, self.spec_file_ops(), old(self).spec_dirs().0, old(self).spec_dirs().1));
                    proof {
                        if existing is Some {
                            assert(mid == old(self).spec_file_ops().push(mid[n as int]));
                        } else {
                            assert(mid == old(self).spec_file_ops());
                        }
                    }
                },
                Err(error) => {
                    proof {
                        self.calls@ = self.calls@.push((true, false));
                    }
                    return Err(exec_error("ca", error.as_str()));
                },
            }
        }
        self.active = true;
        proof {
            self.calls@ = self.calls@.push((true, true));
        }
        Ok(())
    }

    /// Never removes the CA from the trust store nor from storage.
    fn stop(&mut self) -> (r: Result<(), KillSwitchError>)
        ensures
            r is Ok,
            final(self).store() == old(self).store(),
            final(self).trust() == old(self).trust(),
    {
        self.active = false;
        proof {
            self.calls@ = self.calls@.push((false, true));
        }
        Ok(())
    }

    fn is_active(&self) -> (b: bool) {
        self.active
    }
}

/// What a start of the CA domain does: a success leaves a CA recorded, and when one was
/// recorded the start first checks that its certificate file exists; while it does, the start
/// succeeds without generating or installing anything.
pub open spec fn ca_start_outcome<H: HelperBackend, F: CaFiles>(
    s0: CaSubsystem<H, F>,
    s1: CaSubsystem<H, F>,
    r: Result<(), KillSwitchError>,
) -> bool {
    &&& r is Ok ==> s1.store().ca is Some
    &&& s0.store().ca matches Some(m) ==> (s1.spec_file_ops().len() > s0.spec_file_ops().len() && (
    s1.spec_file_ops()[s0.spec_file_ops().len() as int] matches CaFileOp::Exists(p, present) && p
        == m.cert_path@ && (present ==> r is Ok && s1.store() == s0.store()
        && s1.trust().spec_trust_requests() == s0.trust().spec_trust_requests()
        && s1.spec_file_ops() == s0.spec_file_ops().push(CaFileOp::Exists(m.cert_path@, true)))))
}

/// A restart keeps the CA: after a successful start and a stop (which keeps the storage), a
/// new start checks the recorded certificate's file, and while it is there the CA is neither
/// generated nor installed again.
pub proof fn lemma_restart_keeps_ca<H: HelperBackend, F: CaFiles>(
    s0: CaSubsystem<H, F>,
    s1: CaSubsystem<H, F>,
    r1: Result<(), KillSwitchError>,
    s2: CaSubsystem<H, F>,
    s3: CaSubsystem<H, F>,
    r3: Result<(), KillSwitchError>,
)
    requires
        ca_start_outcome(s0, s1, r1),
        r1 is Ok,
        s2.store() == s1.store(),
        ca_start_outcome(s2, s3, r3),
    ensures
        s3.spec_file_ops().len() > s2.spec_file_ops().len(),
        s3.spec_file_ops()[s2.spec_file_ops().len() as int] matches CaFileOp::Exists(p, present) && p
            == s1.store().ca->0.cert_path@ && (present ==> r3 is Ok && s3.store() == s2.store()
            && s3.trust().spec_trust_requests() == s2.trust().spec_trust_requests()),
{
}

/// A CA domain that touches no trust store.
pub struct FakeCaSubsystem {
    active: bool,
    calls: Ghost<Seq<(bool, bool)>>,
}

impl FakeCaSubsystem {
    pub fn new() -> (s: FakeCaSubsystem)
        ensures
            s.spec_name() == "ca"@,
            !s.spec_active(),
    {
        FakeCaSubsystem { active: false, calls: Ghost(Seq::empty()) }
    }
}

impl Subsystem for FakeCaSubsystem {
    closed spec fn spec_name(&self) -> Seq<char> {
        "ca"@
    }

    closed spec fn spec_active(&self) -> bool {
        self.active
    }

    closed spec fn spec_calls(&self) -> Seq<(bool, bool)> {
        self.calls@
    }

    closed spec fn spec_reliable(&self) -> bool {
        true
    }

    fn name(&self) -> (n: &'static str) {
        "ca"
    }

    fn start(&mut self) -> (r: Result<(), KillSwitchError>)
        ensures
            r is Ok,
    {
        self.active = true;
        proof {
            self.calls@ = self.calls@.push((true, true));
        }
        Ok(())
    }

    fn stop(&mut self) -> (r: Result<(), KillSwitchError>)
        ensures
            r is Ok,
    {
        self.active = false;
        proof {
            self.calls@ = self.calls@.push((false, true));
        }
        Ok(())
    }

    fn is_active(&self) -> (b: bool) {
        self.active
    }
}

} // verus!
