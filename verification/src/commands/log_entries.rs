//! The system journal shown in the settings: the kill switch's events, most recent first,
//! each with a message read from its snapshot.

use vstd::prelude::*;

use crate::clock::{format_hms_u64, hms};
use crate::json::{get_member, json_parse, member, parse_json, JsonValue};
use crate::shared::LogEntry;
use crate::storage::events::{event_rows, list_system_events, recent_events};
use crate::storage::{StorageHandle, SystemEventRow};
use crate::text::{dec, owned, push_dec, push_str, str_eq};

verus! {

/// How many events the journal shows.
pub const LOG_ENTRIES_LIMIT: u32 = 200;

/// The emergency stop is the one way out of the normal sequence: the only event shown as a
/// warning.
pub open spec fn level_for(label: Seq<char>) -> Seq<char> {
    if label == "emergency-stop"@ {
        "warn"@
    } else {
        "info"@
    }
}

pub fn log_level_for_label(label: &str) -> (r: String)
    ensures
        r@ == level_for(label@),
{
    if str_eq(label, "emergency-stop") {
        owned("warn")
    } else {
        owned("info")
    }
}

/// `HH:MM:SS` of a timestamp, negative ones read as 0.
pub open spec fn time_of(ts: i64) -> Seq<char> {
    hms(if ts < 0 {
        0
    } else {
        ts as nat
    })
}

pub fn format_hms(timestamp_unix: i64) -> (r: String)
    ensures
        r@ == time_of(timestamp_unix),
{
    let secs: u64 = if timestamp_unix < 0 {
        0
    } else {
        timestamp_unix as u64
    };
    format_hms_u64(secs)
}

pub open spec fn as_bool(v: Option<JsonValue>) -> Option<bool> {
    match v {
        Some(JsonValue::Bool(b)) => Some(b),
        _ => None,
    }
}

/// How many entries of a list are objects whose `active` is `true`.
pub open spec fn count_active(items: Seq<JsonValue>) -> nat
    decreases items.len(),
{
    if items.len() == 0 {
        0
    } else {
        count_active(items.drop_last()) + if as_bool(member(items.last(), "active"@)) == Some(true) {
            1nat
        } else {
            0nat
        }
    }
}

/// The chain's presence and the number of active domains that a snapshot records, when it
/// records both.
pub open spec fn snapshot_summary(doc: Option<JsonValue>) -> Option<(bool, nat)> {
    match doc {
        Some(d) => match (as_bool(member(d, "nftables_chain_present"@)), member(d, "subsystems"@)) {
            (Some(chain), Some(JsonValue::Array(items))) => Some((chain, count_active(items@))),
            _ => None,
        },
        None => None,
    }
}

pub open spec fn label_text(label: Seq<char>) -> Seq<char> {
    if label == "pre-activation"@ {
        "Snapshot avant activation"@
    } else if label == "post-activation"@ {
        "Activation terminée"@
    } else if label == "post-deactivation"@ {
        "Désactivation terminée"@
    } else if label == "emergency-stop"@ {
        "Arrêt d'urgence déclenché"@
    } else {
        label
    }
}

/// The message of an event: what the snapshot records, or only the label when the snapshot
/// does not say.
pub open spec fn event_message(label: Seq<char>, doc: Option<JsonValue>) -> Seq<char> {
    match snapshot_summary(doc) {
        Some((chain, n)) => label_text(label) + " : chaîne nftables "@ + (if chain {
            "présente"@
        } else {
            "absente"@
        }) + ", "@ + dec(n) + " sous-système(s) actif(s)"@,
        None => "Événement système « "@ + label + " »"@,
    }
}

fn json_bool(v: Option<&JsonValue>) -> (r: Option<bool>)
    ensures
        r == as_bool(
            match v {
                Some(x) => Some(*x),
                None => None,
            },
        ),
{
    match v {
        Some(JsonValue::Bool(b)) => Some(*b),
        _ => None,
    }
}


fn summary(doc: &Option<JsonValue>) -> (r: Option<(bool, u64)>)
    ensures
        match r {
            Some((c, n)) => snapshot_summary(*doc) == Some((c, n as nat)),
            None => snapshot_summary(*doc) is None,
        },
{
    let d = match doc {
        Some(d) => d,
        None => {
            return None;
        },
    };
    let chain = match json_bool(get_member(d, "nftables_chain_present")) {
        Some(c) => c,
        None => {
            return None;
        },
    };
    let items = match get_member(d, "subsystems") {
        Some(JsonValue::Array(items)) => items,
        _ => {
            return None;
        },
    };
    let mut count: u64 = 0;
    let mut i: usize = 0;
    assert(items@.subrange(0, 0) =~= Seq::<JsonValue>::empty());
    while i < items.len()
        invariant
            0 <= i <= items@.len(),
            count as nat == count_active(items@.subrange(0, i as int)),
            count <= i,
        decreases items@.len() - i,
    {
        let ghost sub = items@.subrange(0, i + 1);
        assert(sub.drop_last() =~= items@.subrange(0, i as int));
        if json_bool(get_member(&items[i], "active")) == Some(true) {
            count = count + 1;
        }
        i += 1;
    }
    assert(items@.subrange(0, items@.len() as int) =~= items@);
    Some((chain, count))
}

/// The message of an event with the given label and parsed snapshot.
pub fn log_message_for_event(label: &str, snapshot: &Option<JsonValue>) -> (r: String)
    ensures
        r@ == event_message(label@, *snapshot),
{
    match summary(snapshot) {
        Some((chain, n)) => {
            let label_text = if str_eq(label, "pre-activation") {
                "Snapshot avant activation"
            } else if str_eq(label, "post-activation") {
                "Activation terminée"
            } else if str_eq(label, "post-deactivation") {
                "Désactivation terminée"
            } else if str_eq(label, "emergency-stop") {
                "Arrêt d'urgence déclenché"
            } else {
                label
            };
            let mut s = owned(label_text);
            push_str(&mut s, " : chaîne nftables ");
            push_str(
                &mut s,
                if chain {
                    "présente"
                } else {
                    "absente"
                },
            );
            push_str(&mut s, ", ");
            push_dec(&mut s, n);
            push_str(&mut s, " sous-système(s) actif(s)");
            s
        },
        None => {
            let mut s = owned("Événement système « ");
            push_str(&mut s, label);
            push_str(&mut s, " »");
            s
        },
    }
}

/// The journal entry of an event `(timestamp, label, snapshot)`.
pub open spec fn entry_of(row: (i64, Seq<char>, Seq<char>)) -> (Seq<char>, Seq<char>, Seq<char>, Seq<char>) {
    (time_of(row.0), level_for(row.1), "killswitch"@, event_message(row.1, json_parse(row.2)))
}

pub open spec fn entry_view(e: LogEntry) -> (Seq<char>, Seq<char>, Seq<char>, Seq<char>) {
    (e.time@, e.level@, e.subsystem@, e.message@)
}

pub fn to_log_entry(row: &SystemEventRow) -> (e: LogEntry)
    ensures
        entry_view(e) == entry_of((row.timestamp_unix, row.label@, row.snapshot_json@)),
{
    let snapshot = parse_json(row.snapshot_json.as_str());
    LogEntry {
        time: format_hms(row.timestamp_unix),
        level: log_level_for_label(row.label.as_str()),
        subsystem: owned("killswitch"),
        message: log_message_for_event(row.label.as_str(), &snapshot),
    }
}

/// The journal: the most recent events first, at most `LOG_ENTRIES_LIMIT` of them.
pub fn get_log_entries(storage: &StorageHandle) -> (r: Vec<LogEntry>)
    ensures
        r@.map_values(|e: LogEntry| entry_view(e)) == recent_events(
            event_rows(*storage),
            LOG_ENTRIES_LIMIT as nat,
        ).map_values(|row: (i64, Seq<char>, Seq<char>)| entry_of(row)),
{
    let rows = match list_system_events(storage, LOG_ENTRIES_LIMIT) {
        Ok(rows) => rows,
        Err(_) => Vec::new(),
    };
    let ghost rv = rows@.map_values(|e: SystemEventRow| crate::storage::events::event_view(e));
    let mut out: Vec<LogEntry> = Vec::new();
    let mut i: usize = 0;
    while i < rows.len()
        invariant
            rv == rows@.map_values(|e: SystemEventRow| crate::storage::events::event_view(e)),
            rv == recent_events(event_rows(*storage), LOG_ENTRIES_LIMIT as nat),
            0 <= i <= rows@.len(),
            out@.len() == i,
            forall|k: int| 0 <= k < i ==> entry_view(#[trigger] out@[k]) == entry_of(rv[k]),
        decreases rows@.len() - i,
    {
        out.push(to_log_entry(&rows[i]));
        i += 1;
    }
    assert(out@.map_values(|e: LogEntry| entry_view(e)) =~= rv.map_values(
        |row: (i64, Seq<char>, Seq<char>)| entry_of(row),
    ));
    out
}

} // verus!
