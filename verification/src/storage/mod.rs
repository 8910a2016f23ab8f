//! The persistent store of the application, held in memory: flows, system events, user
//! exclusions, the local CA's metadata, keylog targets and the daemon's original socket.
//! Every read gives back what the last writes left; no operation can fail.

use vstd::prelude::*;

use crate::shared::Flow;

pub mod attribution;
pub mod decryption;
pub mod events;
pub mod flows;
pub mod keylog;

verus! {

/// An error of the store (kept for the callers' signatures; the in-memory store never fails).
#[derive(Debug, Clone)]
pub struct StorageError {
    pub message: String,
}

/// A flow row and the time (Unix seconds) it was recorded.
#[derive(Debug, Clone)]
pub struct StoredFlow {
    pub flow: Flow,
    pub recorded_at: u64,
}

/// A row of the system event journal.
#[derive(Debug, Clone)]
pub struct SystemEventRow {
    pub timestamp_unix: i64,
    pub label: String,
    pub snapshot_json: String,
}

/// A user exclusion (`kind` is `destination` or `processus`).
#[derive(Debug, Clone)]
pub struct ExclusionRow {
    pub name: String,
    pub kind: String,
}

/// Where the local CA lives and its SHA-256 fingerprint (hex).
#[derive(Debug, Clone)]
pub struct CaMetadata {
    pub cert_path: String,
    pub key_path: String,
    pub fingerprint_sha256: String,
}

/// An application targeted by keylog injection, with its injection state.
#[derive(Debug, Clone)]
pub struct KeylogAppRow {
    pub binary_path: String,
    pub desktop_path: Option<String>,
    pub backup_path: Option<String>,
}

/// A persisted capture packet.
#[derive(Debug, Clone)]
pub struct CapturePacketRecord {
    pub timestamp_unix_ms: i64,
    pub interface: String,
    pub protocol: String,
    pub src_ip: String,
    pub dst_ip: String,
    pub src_port: Option<u16>,
    pub dst_port: Option<u16>,
    pub bytes: i64,
    pub sni: Option<String>,
    pub detected_protocol: Option<String>,
}

/// A probable certificate-pinning signal.
#[derive(Debug, Clone)]
pub struct PinningEvent {
    pub timestamp_unix: i64,
    pub protocol: String,
    pub src_ip: String,
    pub src_port: u16,
    pub dst_ip: String,
    pub dst_port: u16,
    pub host: Option<String>,
}

/// The store: each table is a sequence of rows in insertion order.
#[derive(Debug, Clone)]
pub struct StorageHandle {
    pub flows: Vec<StoredFlow>,
    pub system_events: Vec<SystemEventRow>,
    pub exclusions: Vec<ExclusionRow>,
    pub ca: Option<CaMetadata>,
    pub keylog_apps: Vec<KeylogAppRow>,
    pub origin_sockets: Vec<String>,
    pub capture_packets: Vec<CapturePacketRecord>,
    pub pinning_events: Vec<PinningEvent>,
}

impl StorageHandle {
    pub open spec fn is_empty_store(&self) -> bool {
        &&& self.flows@.len() == 0
        &&& self.system_events@.len() == 0
        &&& self.exclusions@.len() == 0
        &&& self.ca is None
        &&& self.keylog_apps@.len() == 0
        &&& self.origin_sockets@.len() == 0
        &&& self.capture_packets@.len() == 0
        &&& self.pinning_events@.len() == 0
    }

    /// A new, empty store.
    pub fn open_in_memory() -> (r: Result<StorageHandle, StorageError>)
        ensures
            r matches Ok(s) && s.is_empty_store(),
    {
        Ok(
            StorageHandle {
                flows: Vec::new(),
                system_events: Vec::new(),
                exclusions: Vec::new(),
                ca: None,
                keylog_apps: Vec::new(),
                origin_sockets: Vec::new(),
                capture_packets: Vec::new(),
                pinning_events: Vec::new(),
            },
        )
    }
}

} // verus!
