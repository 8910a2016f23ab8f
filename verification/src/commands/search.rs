//! Saved searches and their conversion into alert rules. Nothing is persisted: the interface
//! keeps what it is given back.

use vstd::prelude::*;

use crate::shared::{AlertRule, SavedQuery, SearchCriteria};
use crate::text::{hex, hex_chars, owned, push_str};

verus! {

/// The sum of the bytes.
pub open spec fn byte_sum(b: Seq<u8>) -> nat
    decreases b.len(),
{
    if b.len() == 0 {
        0
    } else {
        byte_sum(b.drop_last()) + b.last() as nat
    }
}

proof fn lemma_byte_sum_bound(b: Seq<u8>)
    ensures
        byte_sum(b) <= 255 * b.len(),
    decreases b.len(),
{
    if b.len() > 0 {
        lemma_byte_sum_bound(b.drop_last());
    }
}

/// The identifier of a saved query: `q-` then the sum of the bytes of its name in
/// hexadecimal.
pub open spec fn query_id(name: Seq<char>) -> Seq<char> {
    "q-"@ + hex(byte_sum(vstd::utf8::encode_utf8(name)), false)
}

/// The longest name whose byte sum fits the 32 bits it is summed in.
pub const QUERY_NAME_MAX_BYTES: usize = 16843009;

/// Saves a query under `name`, with an identifier derived from the name.
pub fn save_search_query(name: String, criteria: SearchCriteria) -> (q: SavedQuery)
    requires
        vstd::utf8::encode_utf8(name@).len() <= QUERY_NAME_MAX_BYTES,
    ensures
        q.id@ == query_id(name@),
        q.name@ == name@,
        q.criteria == criteria,
{
    let bytes = name.as_str().as_bytes();
    let mut sum: u64 = 0;
    let mut i: usize = 0;
    proof {
        lemma_byte_sum_bound(bytes@);
    }
    while i < bytes.len()
        invariant
            bytes@ == vstd::utf8::encode_utf8(name@),
            bytes@.len() <= QUERY_NAME_MAX_BYTES,
            0 <= i <= bytes@.len(),
            sum == byte_sum(bytes@.subrange(0, i as int)),
        decreases bytes@.len() - i,
    {
        assert(bytes@.subrange(0, i + 1).drop_last() =~= bytes@.subrange(0, i as int));
        proof {
            lemma_byte_sum_bound(bytes@.subrange(0, i as int));
        }
        sum = sum + bytes[i] as u64;
        i += 1;
    }
    assert(bytes@.subrange(0, bytes@.len() as int) =~= bytes@);
    let digits = hex_chars(sum, false);
    let mut id = owned("q-");
    let d = crate::text::from_chars(&digits);
    push_str(&mut id, d.as_str());
    SavedQuery { id, name, criteria }
}

/// The saved queries: none is kept.
pub fn list_saved_queries() -> (v: Vec<SavedQuery>)
    ensures
        v@.len() == 0,
{
    Vec::new()
}

/// Nothing is kept, so nothing is removed.
pub fn delete_saved_query(id: String) {
}

/// The alert rule made from a saved query: active, never triggered, its criteria the query.
pub fn convert_query_to_alert(query_id: String, alert_name: String) -> (r: AlertRule)
    ensures
        r.id@ == "r-from-"@ + query_id@,
        r.name@ == alert_name@,
        r.description@ == "Règle générée depuis une requête de recherche sauvegardée"@,
        r.criteria@ == query_id@,
        r.active,
        r.trigger_count == 0,
{
    let mut id = owned("r-from-");
    push_str(&mut id, query_id.as_str());
    AlertRule {
        id,
        name: alert_name,
        description: owned("Règle générée depuis une requête de recherche sauvegardée"),
        criteria: query_id,
        active: true,
        trigger_count: 0,
    }
}

} // verus!
