//! Alert rules: no rule and no event is kept, and nothing is made up from the flows; a
//! created or edited rule is handed back to the interface, which keeps it.

use vstd::prelude::*;

use crate::clock::now_unix_nanos;
use crate::shared::{AlertEvent, AlertRule};
use crate::text::{hex, hex_chars, owned, push_str};

verus! {

pub fn list_alert_rules() -> (v: Vec<AlertRule>)
    ensures
        v@.len() == 0,
{
    Vec::new()
}

/// There is no rule to toggle.
pub fn toggle_alert_rule(id: String) -> (b: bool)
    ensures
        !b,
{
    false
}

/// A new rule, active and never triggered, identified by `r-` and the current time in
/// hexadecimal nanoseconds.
pub fn create_alert_rule(name: String, description: String, criteria: String) -> (r: AlertRule)
    ensures
        exists|t: u64| r.id@ == "r-"@ + #[trigger] hex(t as nat, false),
        r.name@ == name@,
        r.description@ == description@,
        r.criteria@ == criteria@,
        r.active,
        r.trigger_count == 0,
{
    let t = now_unix_nanos();
    let digits = hex_chars(t, false);
    let mut id = owned("r-");
    let d = crate::text::from_chars(&digits);
    push_str(&mut id, d.as_str());
    AlertRule { id, name, description, criteria, active: true, trigger_count: 0 }
}

/// The edited rule, active and never triggered (no earlier state is kept to carry over).
pub fn update_alert_rule(id: String, name: String, description: String, criteria: String) -> (r:
    AlertRule)
    ensures
        r.id@ == id@,
        r.name@ == name@,
        r.description@ == description@,
        r.criteria@ == criteria@,
        r.active,
        r.trigger_count == 0,
{
    AlertRule { id, name, description, criteria, active: true, trigger_count: 0 }
}

/// Nothing is kept, so nothing is removed.
pub fn delete_alert_rule(id: String) {
}

pub fn list_alert_events(rule_id: Option<String>) -> (v: Vec<AlertEvent>)
    ensures
        v@.len() == 0,
{
    Vec::new()
}

} // verus!
