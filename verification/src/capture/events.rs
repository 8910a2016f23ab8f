//! The packets reported by the capture helper and their persistence.

use vstd::prelude::*;

use crate::killswitch::KillSwitchError;
use crate::shared::{dup_opt, opt_view};
use crate::storage::events::record_capture_packet;
use crate::storage::{CapturePacketRecord, StorageHandle};

verus! {

/// A packet as the capture helper reports it (one JSON line each).
#[derive(Debug, Clone)]
pub struct CapturedPacket {
    pub timestamp_unix_ms: u128,
    pub interface: String,
    pub protocol: String,
    pub src_ip: String,
    pub dst_ip: String,
    pub src_port: Option<u16>,
    pub dst_port: Option<u16>,
    pub bytes: usize,
    pub sni: Option<String>,
    pub detected_protocol: Option<String>,
}

/// The journal row of a packet: the same fields, the timestamp and size as signed 64-bit
/// integers.
pub open spec fn record_of(r: CapturePacketRecord, p: CapturedPacket) -> bool {
    &&& r.timestamp_unix_ms == p.timestamp_unix_ms as i64
    &&& r.interface@ == p.interface@
    &&& r.protocol@ == p.protocol@
    &&& r.src_ip@ == p.src_ip@
    &&& r.dst_ip@ == p.dst_ip@
    &&& r.src_port == p.src_port
    &&& r.dst_port == p.dst_port
    &&& r.bytes == p.bytes as i64
    &&& opt_view(r.sni) == opt_view(p.sni)
    &&& opt_view(r.detected_protocol) == opt_view(p.detected_protocol)
}

/// Journals a captured packet.
pub fn append_packet(storage: &mut StorageHandle, packet: &CapturedPacket) -> (r: Result<
    (),
    KillSwitchError,
>)
    ensures
        r is Ok,
        final(storage).capture_packets@.len() == old(storage).capture_packets@.len() + 1,
        final(storage).capture_packets@.drop_last() == old(storage).capture_packets@,
        record_of(final(storage).capture_packets@.last(), *packet),
        final(storage).flows == old(storage).flows,
        final(storage).system_events == old(storage).system_events,
{
    let record = CapturePacketRecord {
        timestamp_unix_ms: packet.timestamp_unix_ms as i64,
        interface: packet.interface.clone(),
        protocol: packet.protocol.clone(),
        src_ip: packet.src_ip.clone(),
        dst_ip: packet.dst_ip.clone(),
        src_port: packet.src_port,
        dst_port: packet.dst_port,
        bytes: packet.bytes as i64,
        sni: dup_opt(&packet.sni),
        detected_protocol: dup_opt(&packet.detected_protocol),
    };
    match record_capture_packet(storage, record) {
        Ok(()) => Ok(()),
        Err(error) => Err(KillSwitchError::Persistence(error.message)),
    }
}

} // verus!
