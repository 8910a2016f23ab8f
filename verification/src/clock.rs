//! Wall-clock reading and the `HH:MM:SS` rendering used throughout the interface.

use vstd::prelude::*;

use crate::text::{push_char, push_two_digits, two_digits};

verus! {

/// Reads the system clock: whole seconds since the Unix epoch, `None` when the clock is set
/// before the epoch. Nothing is stated of the value: it is whatever the machine's clock says.
#[verifier::external_body]
fn unix_time_now() -> Option<u64> {
    std::time::SystemTime::now().duration_since(std::time::UNIX_EPOCH).ok().map(|d| d.as_secs())
}

/// Reads the system clock in milliseconds since the Unix epoch, `None` when the clock is set
/// before the epoch or beyond what 64 bits hold. Nothing is stated of the value.
#[verifier::external_body]
fn unix_time_now_ms() -> Option<u64> {
    match std::time::SystemTime::now().duration_since(std::time::UNIX_EPOCH) {
        Ok(d) => u64::try_from(d.as_millis()).ok(),
        Err(_) => None,
    }
}

/// Reads the system clock in nanoseconds since the Unix epoch, `None` when the clock is set
/// before the epoch or beyond what 64 bits hold. Nothing is stated of the value.
#[verifier::external_body]
fn unix_time_now_nanos() -> Option<u64> {
    match std::time::SystemTime::now().duration_since(std::time::UNIX_EPOCH) {
        Ok(d) => u64::try_from(d.as_nanos()).ok(),
        Err(_) => None,
    }
}

/// Nanoseconds since the Unix epoch, 0 when the clock cannot say.
pub fn now_unix_nanos() -> u64 {
    match unix_time_now_nanos() {
        Some(ns) => ns,
        None => 0,
    }
}

/// Milliseconds since the Unix epoch, 0 when the clock cannot say.
pub fn now_unix_ms() -> u64 {
    match unix_time_now_ms() {
        Some(ms) => ms,
        None => 0,
    }
}

/// Seconds since the Unix epoch, 0 when the clock is set before the epoch.
pub fn now_unix() -> u64 {
    match unix_time_now() {
        Some(secs) => secs,
        None => 0,
    }
}

/// `HH:MM:SS` of the time of day (UTC) of a Unix timestamp.
pub open spec fn hms(secs: nat) -> Seq<char> {
    two_digits((secs / 3600) % 24) + seq![':'] + two_digits((secs / 60) % 60) + seq![':']
        + two_digits(secs % 60)
}

pub fn format_hms_u64(secs: u64) -> (s: String)
    ensures
        s@ == hms(secs as nat),
{
    let mut s = String::new();
    push_two_digits(&mut s, (secs / 3600) % 24);
    push_char(&mut s, ':');
    push_two_digits(&mut s, (secs / 60) % 60);
    push_char(&mut s, ':');
    push_two_digits(&mut s, secs % 60);
    s
}

} // verus!
