//! The connection key shared by every domain, and the attribution of a connection to its
//! process.

use vstd::prelude::*;

use crate::text::str_eq;

verus! {

/// The 5-tuple of a connection: the key under which the sources of one connection meet.
/// Addresses are in canonical text form.
#[derive(Debug, Clone)]
pub struct FiveTuple {
    pub protocol: String,
    pub src_ip: String,
    pub src_port: u16,
    pub dst_ip: String,
    pub dst_port: u16,
}

/// The value of a 5-tuple.
pub struct TupleView {
    pub protocol: Seq<char>,
    pub src_ip: Seq<char>,
    pub src_port: u16,
    pub dst_ip: Seq<char>,
    pub dst_port: u16,
}

impl View for FiveTuple {
    type V = TupleView;

    open spec fn view(&self) -> TupleView {
        TupleView {
            protocol: self.protocol@,
            src_ip: self.src_ip@,
            src_port: self.src_port,
            dst_ip: self.dst_ip@,
            dst_port: self.dst_port,
        }
    }
}

impl FiveTuple {
    /// Whether two tuples name the same connection.
    pub fn same(&self, other: &FiveTuple) -> (b: bool)
        ensures
            b == (self@ == other@),
    {
        let r = self.src_port == other.src_port && self.dst_port == other.dst_port && str_eq(
            self.protocol.as_str(),
            other.protocol.as_str(),
        ) && str_eq(self.src_ip.as_str(), other.src_ip.as_str()) && str_eq(
            self.dst_ip.as_str(),
            other.dst_ip.as_str(),
        );
        proof {
            if r {
                assert(self@ =~= other@);
            }
        }
        r
    }

    pub fn dup(&self) -> (r: FiveTuple)
        ensures
            r@ == self@,
    {
        FiveTuple {
            protocol: self.protocol.clone(),
            src_ip: self.src_ip.clone(),
            src_port: self.src_port,
            dst_ip: self.dst_ip.clone(),
            dst_port: self.dst_port,
        }
    }
}

/// A connection attributed to a process by the daemon.
#[derive(Debug, Clone)]
pub struct AttributionEvent {
    pub pid: u32,
    pub exe_path: String,
    pub app_name: String,
    pub five_tuple: Option<FiveTuple>,
    pub timestamp_unix_ms: u128,
}

/// The URI under which the daemon reaches a UNIX socket.
pub fn socket_uri(path: &str) -> (r: String)
    ensures
        r@ == "unix://"@ + path@,
{
    let mut r = crate::text::owned("unix://");
    crate::text::push_str(&mut r, path);
    r
}

} // verus!
