//! Tables of the decryption domain: user exclusions, the local CA's metadata and pinning
//! signals.

use vstd::prelude::*;

use super::{CaMetadata, ExclusionRow, PinningEvent, StorageError, StorageHandle};
use crate::text::str_eq;

verus! {

pub open spec fn exclusion_view(r: ExclusionRow) -> (Seq<char>, Seq<char>) {
    (r.name@, r.kind@)
}

pub open spec fn exclusion_rows(s: StorageHandle) -> Seq<(Seq<char>, Seq<char>)> {
    s.exclusions@.map_values(|r: ExclusionRow| exclusion_view(r))
}

/// The exclusions after adding `(name, kind)`: an exclusion of the same name takes the new
/// kind in place, otherwise the new one is appended.
pub open spec fn with_exclusion(rows: Seq<(Seq<char>, Seq<char>)>, name: Seq<char>, kind: Seq<char>) -> Seq<
    (Seq<char>, Seq<char>),
> {
    if exists|i: int| 0 <= i < rows.len() && rows[i].0 == name {
        rows.map_values(
            |r: (Seq<char>, Seq<char>)|
                if r.0 == name {
                    (name, kind)
                } else {
                    r
                },
        )
    } else {
        rows.push((name, kind))
    }
}

/// The exclusions after removing every one named `name`.
pub open spec fn without_exclusion(rows: Seq<(Seq<char>, Seq<char>)>, name: Seq<char>) -> Seq<
    (Seq<char>, Seq<char>),
> {
    rows.filter(not_named(name))
}

/// The rows kept when `name` is removed.
pub open spec fn not_named(name: Seq<char>) -> spec_fn((Seq<char>, Seq<char>)) -> bool {
    |r: (Seq<char>, Seq<char>)| r.0 != name
}

/// Adding an exclusion records it, adding it again changes nothing, and removing a name
/// leaves no exclusion of that name.
pub proof fn lemma_exclusion_add_remove(
    rows: Seq<(Seq<char>, Seq<char>)>,
    name: Seq<char>,
    kind: Seq<char>,
)
    ensures
        with_exclusion(rows, name, kind).contains((name, kind)),
        with_exclusion(with_exclusion(rows, name, kind), name, kind) == with_exclusion(rows, name, kind),
        forall|i: int|
            0 <= i < without_exclusion(rows, name).len() ==> (#[trigger] without_exclusion(rows, name)[i]).0
                != name,
{
    let once = with_exclusion(rows, name, kind);
    if exists|i: int| 0 <= i < rows.len() && rows[i].0 == name {
        let w = choose|i: int| 0 <= i < rows.len() && rows[i].0 == name;
        assert(once[w] == (name, kind));
    } else {
        assert(once[rows.len() as int] == (name, kind));
    }
    assert(once.contains((name, kind)));
    let w = choose|i: int| 0 <= i < once.len() && once[i] == (name, kind);
    assert(once[w].0 == name);
    let twice = with_exclusion(once, name, kind);
    assert forall|i: int| 0 <= i < once.len() && #[trigger] once[i].0 == name implies once[i] == (
    name,
    kind,
    ) by {
        if !(exists|j: int| 0 <= j < rows.len() && rows[j].0 == name) {
            if i < rows.len() {
                assert(rows[i].0 == name);
            }
        }
    }
    assert(twice =~= once);
    assert forall|i: int| 0 <= i < without_exclusion(rows, name).len() implies (
    #[trigger] without_exclusion(rows, name)[i]).0 != name by {
        rows.lemma_filter_pred(not_named(name), i);
    }
}

pub fn add_exclusion(storage: &mut StorageHandle, name: &str, kind: &str) -> (r: Result<
    (),
    StorageError,
>)
    ensures
        r is Ok,
        exclusion_rows(*final(storage)) == with_exclusion(
            exclusion_rows(*old(storage)),
            name@,
            kind@,
        ),
        final(storage).flows == old(storage).flows,
        final(storage).system_events == old(storage).system_events,
        final(storage).ca == old(storage).ca,
{
    let ghost before = exclusion_rows(*storage);
    let n = storage.exclusions.len();
    let mut found = false;
    let mut rows: Vec<ExclusionRow> = Vec::new();
    let mut i: usize = 0;
    while i < n
        invariant
            n == storage.exclusions@.len(),
            before == exclusion_rows(*storage),
            0 <= i <= n,
            rows@.len() == i,
            found <==> exists|k: int| 0 <= k < i && before[k].0 == name@,
            forall|k: int|
                0 <= k < i ==> exclusion_view(#[trigger] rows@[k]) == (if before[k].0 == name@ {
                    (name@, kind@)
                } else {
                    before[k]
                }),
        decreases n - i,
    {
        let e = &storage.exclusions[i];
        assert(before[i as int] == exclusion_view(storage.exclusions@[i as int]));
        if str_eq(e.name.as_str(), name) {
            found = true;
            assert(before[i as int].0 == name@);
            rows.push(ExclusionRow { name: name.to_owned(), kind: kind.to_owned() });
        } else {
            rows.push(ExclusionRow { name: e.name.clone(), kind: e.kind.clone() });
        }
        i += 1;
    }
    if !found {
        rows.push(ExclusionRow { name: name.to_owned(), kind: kind.to_owned() });
        assert(rows@.map_values(|r: ExclusionRow| exclusion_view(r)) =~= before.push(
            (name@, kind@),
        )) by {
            assert forall|k: int| 0 <= k < before.len() implies before[k].0 != name@ by {
                if before[k].0 == name@ {
                    assert(exists|k2: int| 0 <= k2 < n && before[k2].0 == name@);
                }
            }
        }
    } else {
        assert(rows@.map_values(|r: ExclusionRow| exclusion_view(r)) =~= with_exclusion(
            before,
            name@,
            kind@,
        ));
    }
    storage.exclusions = rows;
    Ok(())
}

pub fn remove_exclusion(storage: &mut StorageHandle, name: &str) -> (r: Result<(), StorageError>)
    ensures
        r is Ok,
        exclusion_rows(*final(storage)) == without_exclusion(exclusion_rows(*old(storage)), name@),
        final(storage).flows == old(storage).flows,
        final(storage).system_events == old(storage).system_events,
        final(storage).ca == old(storage).ca,
{
    let ghost before = exclusion_rows(*storage);
    let n = storage.exclusions.len();
    let mut rows: Vec<ExclusionRow> = Vec::new();
    let mut i: usize = 0;
    assert(before.subrange(0, 0).filter(|r: (Seq<char>, Seq<char>)| r.0 != name@) =~= Seq::<
        (Seq<char>, Seq<char>),
    >::empty()) by {
        reveal(Seq::filter);
    }
    while i < n
        invariant
            n == storage.exclusions@.len(),
            before == exclusion_rows(*storage),
            0 <= i <= n,
            rows@.map_values(|r: ExclusionRow| exclusion_view(r)) == before.subrange(
                0,
                i as int,
            ).filter(|r: (Seq<char>, Seq<char>)| r.0 != name@),
        decreases n - i,
    {
        let e = &storage.exclusions[i];
        let ghost old_rows = rows@;
        assert(before[i as int] == exclusion_view(storage.exclusions@[i as int]));
        proof {
            reveal(Seq::filter);
            assert(before.subrange(0, i + 1).drop_last() =~= before.subrange(0, i as int));
            assert(before.subrange(0, i + 1).last() == before[i as int]);
        }
        if !str_eq(e.name.as_str(), name) {
            rows.push(ExclusionRow { name: e.name.clone(), kind: e.kind.clone() });
            assert(rows@.map_values(|r: ExclusionRow| exclusion_view(r)) =~= old_rows.map_values(
                |r: ExclusionRow| exclusion_view(r),
            ).push(before[i as int]));
        }
        i += 1;
    }
    assert(before.subrange(0, n as int) =~= before);
    storage.exclusions = rows;
    Ok(())
}

pub fn list_exclusions(storage: &StorageHandle) -> (r: Result<Vec<ExclusionRow>, StorageError>)
    ensures
        r matches Ok(v) && v@.map_values(|e: ExclusionRow| exclusion_view(e)) == exclusion_rows(
            *storage,
        ),
{
    let n = storage.exclusions.len();
    let mut out: Vec<ExclusionRow> = Vec::new();
    let mut i: usize = 0;
    while i < n
        invariant
            n == storage.exclusions@.len(),
            0 <= i <= n,
            out@.len() == i,
            forall|k: int|
                0 <= k < i ==> exclusion_view(#[trigger] out@[k]) == exclusion_view(
                    storage.exclusions@[k],
                ),
        decreases n - i,
    {
        let e = &storage.exclusions[i];
        out.push(ExclusionRow { name: e.name.clone(), kind: e.kind.clone() });
        i += 1;
    }
    assert(out@.map_values(|e: ExclusionRow| exclusion_view(e)) =~= exclusion_rows(*storage));
    Ok(out)
}

pub open spec fn ca_view(m: CaMetadata) -> (Seq<char>, Seq<char>, Seq<char>) {
    (m.cert_path@, m.key_path@, m.fingerprint_sha256@)
}

pub open spec fn ca_opt_view(m: Option<CaMetadata>) -> Option<(Seq<char>, Seq<char>, Seq<char>)> {
    match m {
        Some(x) => Some(ca_view(x)),
        None => None,
    }
}

impl CaMetadata {
    pub fn dup(&self) -> (r: CaMetadata)
        ensures
            ca_view(r) == ca_view(*self),
    {
        CaMetadata {
            cert_path: self.cert_path.clone(),
            key_path: self.key_path.clone(),
            fingerprint_sha256: self.fingerprint_sha256.clone(),
        }
    }
}

/// Records the local CA (replacing the previous one).
pub fn save_ca(storage: &mut StorageHandle, metadata: &CaMetadata) -> (r: Result<(), StorageError>)
    ensures
        r is Ok,
        ca_opt_view(final(storage).ca) == Some(ca_view(*metadata)),
        final(storage).flows == old(storage).flows,
        final(storage).exclusions == old(storage).exclusions,
        final(storage).system_events == old(storage).system_events,
{
    storage.ca = Some(metadata.dup());
    Ok(())
}

pub fn get_ca(storage: &StorageHandle) -> (r: Result<Option<CaMetadata>, StorageError>)
    ensures
        r matches Ok(m) && ca_opt_view(m) == ca_opt_view(storage.ca),
{
    match &storage.ca {
        Some(m) => Ok(Some(m.dup())),
        None => Ok(None),
    }
}

/// Appends a pinning signal.
pub fn record_pinning_event(storage: &mut StorageHandle, event: PinningEvent) -> (r: Result<
    (),
    StorageError,
>)
    ensures
        r is Ok,
        final(storage).pinning_events@ == old(storage).pinning_events@.push(event),
        final(storage).flows == old(storage).flows,
        final(storage).system_events == old(storage).system_events,
{
    storage.pinning_events.push(event);
    Ok(())
}

} // verus!
