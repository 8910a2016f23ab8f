//! What the domains report to correlation, and the connection each report is about.

use vstd::prelude::*;

use crate::attribution::{AttributionEvent, FiveTuple, TupleView};
use crate::capture::CapturedPacket;
use crate::keylog::DecryptedFragment;
use crate::text::{lowercase, to_lowercase};

verus! {

/// One report to correlation.
pub enum CorrelationEvent {
    Capture(CapturedPacket),
    Attribution(AttributionEvent),
    /// Content decrypted by tshark from the applications' session keys.
    Decryption(DecryptedFragment),
}

/// The key of a captured packet: its transport protocol in lower case, its addresses and
/// ports; none for a packet without ports.
pub open spec fn capture_key(p: CapturedPacket) -> Option<TupleView> {
    match (p.src_port, p.dst_port) {
        (Some(s), Some(d)) => Some(
            TupleView {
                protocol: lowercase(p.protocol@),
                src_ip: p.src_ip@,
                src_port: s,
                dst_ip: p.dst_ip@,
                dst_port: d,
            },
        ),
        _ => None,
    }
}

/// The connection a report is about, if it names one.
pub open spec fn key_of(e: CorrelationEvent) -> Option<TupleView> {
    match e {
        CorrelationEvent::Capture(p) => capture_key(p),
        CorrelationEvent::Attribution(a) => match a.five_tuple {
            Some(t) => Some(t@),
            None => None,
        },
        CorrelationEvent::Decryption(f) => Some(f.five_tuple@),
    }
}

/// The key of a captured packet. Addresses are taken as they are: the caller hands them in
/// canonical text form.
pub fn capture_five_tuple(packet: &CapturedPacket) -> (r: Option<FiveTuple>)
    ensures
        match r {
            Some(t) => capture_key(*packet) == Some(t@),
            None => capture_key(*packet) is None,
        },
{
    match (packet.src_port, packet.dst_port) {
        (Some(src_port), Some(dst_port)) => Some(
            FiveTuple {
                protocol: to_lowercase(packet.protocol.as_str()),
                src_ip: packet.src_ip.clone(),
                src_port,
                dst_ip: packet.dst_ip.clone(),
                dst_port,
            },
        ),
        _ => None,
    }
}

/// The key of a report; none when the report names no usable connection.
pub fn event_five_tuple(event: &CorrelationEvent) -> (r: Option<FiveTuple>)
    ensures
        match r {
            Some(t) => key_of(*event) == Some(t@),
            None => key_of(*event) is None,
        },
{
    match event {
        CorrelationEvent::Capture(packet) => capture_five_tuple(packet),
        CorrelationEvent::Attribution(attribution_event) => match &attribution_event.five_tuple {
            Some(t) => Some(t.dup()),
            None => None,
        },
        CorrelationEvent::Decryption(fragment) => Some(fragment.five_tuple.dup()),
    }
}

} // verus!
