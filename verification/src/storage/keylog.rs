//! The keylog targets table.

use vstd::prelude::*;

use super::{KeylogAppRow, StorageError, StorageHandle};
use crate::shared::{dup_opt, opt_view};
use crate::text::str_eq;

verus! {

pub open spec fn app_view(r: KeylogAppRow) -> (Seq<char>, Option<Seq<char>>, Option<Seq<char>>) {
    (r.binary_path@, opt_view(r.desktop_path), opt_view(r.backup_path))
}

pub open spec fn app_rows(s: StorageHandle) -> Seq<(Seq<char>, Option<Seq<char>>, Option<Seq<char>>)> {
    s.keylog_apps@.map_values(|r: KeylogAppRow| app_view(r))
}

impl KeylogAppRow {
    pub fn dup(&self) -> (r: KeylogAppRow)
        ensures
            app_view(r) == app_view(*self),
    {
        KeylogAppRow {
            binary_path: self.binary_path.clone(),
            desktop_path: dup_opt(&self.desktop_path),
            backup_path: dup_opt(&self.backup_path),
        }
    }
}

/// Whether some target has the given binary path.
pub open spec fn has_app(rows: Seq<(Seq<char>, Option<Seq<char>>, Option<Seq<char>>)>, binary: Seq<char>) -> bool {
    exists|i: int| 0 <= i < rows.len() && rows[i].0 == binary
}

fn find_app(storage: &StorageHandle, binary_path: &str) -> (r: Option<usize>)
    ensures
        r matches Some(i) ==> i < app_rows(*storage).len() && app_rows(*storage)[i as int].0
            == binary_path@ && forall|j: int| 0 <= j < i ==> app_rows(*storage)[j].0 != binary_path@,
        r is None ==> !has_app(app_rows(*storage), binary_path@),
{
    let mut i: usize = 0;
    while i < storage.keylog_apps.len()
        invariant
            0 <= i <= storage.keylog_apps@.len(),
            forall|j: int| 0 <= j < i ==> app_rows(*storage)[j].0 != binary_path@,
        decreases storage.keylog_apps@.len() - i,
    {
        if str_eq(storage.keylog_apps[i].binary_path.as_str(), binary_path) {
            return Some(i);
        }
        i += 1;
    }
    None
}

/// Adds a target with no injection recorded; an existing target is left as it is.
pub fn add_app(storage: &mut StorageHandle, binary_path: &str) -> (r: Result<(), StorageError>)
    ensures
        r is Ok,
        has_app(app_rows(*old(storage)), binary_path@) ==> app_rows(*final(storage)) == app_rows(
            *old(storage),
        ),
        !has_app(app_rows(*old(storage)), binary_path@) ==> app_rows(*final(storage)) == app_rows(
            *old(storage),
        ).push((binary_path@, None, None)),
{
    match find_app(storage, binary_path) {
        Some(_) => Ok(()),
        None => {
            let ghost before = storage.keylog_apps@;
            storage.keylog_apps.push(
                KeylogAppRow { binary_path: binary_path.to_owned(), desktop_path: None, backup_path: None },
            );
            assert(app_rows(*storage) =~= before.map_values(|r: KeylogAppRow| app_view(r)).push(
                (binary_path@, None, None),
            ));
            Ok(())
        },
    }
}

pub fn list_apps(storage: &StorageHandle) -> (r: Result<Vec<KeylogAppRow>, StorageError>)
    ensures
        r matches Ok(v) && v@.map_values(|a: KeylogAppRow| app_view(a)) == app_rows(*storage),
{
    let n = storage.keylog_apps.len();
    let mut out: Vec<KeylogAppRow> = Vec::new();
    let mut i: usize = 0;
    while i < n
        invariant
            n == storage.keylog_apps@.len(),
            0 <= i <= n,
            out@.len() == i,
            forall|k: int| 0 <= k < i ==> app_view(#[trigger] out@[k]) == app_rows(*storage)[k],
        decreases n - i,
    {
        out.push(storage.keylog_apps[i].dup());
        i += 1;
    }
    assert(out@.map_values(|a: KeylogAppRow| app_view(a)) =~= app_rows(*storage));
    Ok(out)
}

pub fn get_app(storage: &StorageHandle, binary_path: &str) -> (r: Result<
    Option<KeylogAppRow>,
    StorageError,
>)
    ensures
        r is Ok,
        r matches Ok(None) ==> !has_app(app_rows(*storage), binary_path@),
        r matches Ok(Some(a)) ==> exists|i: int|
            0 <= i < app_rows(*storage).len() && app_rows(*storage)[i] == app_view(a)
                && app_view(a).0 == binary_path@ && forall|j: int|
                0 <= j < i ==> app_rows(*storage)[j].0 != binary_path@,
{
    match find_app(storage, binary_path) {
        Some(i) => Ok(Some(storage.keylog_apps[i].dup())),
        None => Ok(None),
    }
}

/// Sets the injection state of every target with the given binary path.
fn set_injection(
    storage: &mut StorageHandle,
    binary_path: &str,
    desktop_path: Option<String>,
    backup_path: Option<String>,
)
    ensures
        app_rows(*final(storage)).len() == app_rows(*old(storage)).len(),
        forall|i: int|
            0 <= i < app_rows(*old(storage)).len() ==> #[trigger] app_rows(*final(storage))[i] == (
            if app_rows(*old(storage))[i].0 == binary_path@ {
                (binary_path@, opt_view(desktop_path), opt_view(backup_path))
            } else {
                app_rows(*old(storage))[i]
            }),
        final(storage).flows == old(storage).flows,
{
    let ghost before = app_rows(*storage);
    let n = storage.keylog_apps.len();
    let mut rows: Vec<KeylogAppRow> = Vec::new();
    let mut i: usize = 0;
    while i < n
        invariant
            n == storage.keylog_apps@.len(),
            before == app_rows(*storage),
            0 <= i <= n,
            rows@.len() == i,
            forall|k: int|
                0 <= k < i ==> app_view(#[trigger] rows@[k]) == (if before[k].0 == binary_path@ {
                    (binary_path@, opt_view(desktop_path), opt_view(backup_path))
                } else {
                    before[k]
                }),
        decreases n - i,
    {
        let a = &storage.keylog_apps[i];
        if str_eq(a.binary_path.as_str(), binary_path) {
            rows.push(
                KeylogAppRow {
                    binary_path: binary_path.to_owned(),
                    desktop_path: dup_opt(&desktop_path),
                    backup_path: dup_opt(&backup_path),
                },
            );
        } else {
            rows.push(a.dup());
        }
        i += 1;
    }
    storage.keylog_apps = rows;
}

/// Records that a target's desktop entry was overridden (and where the previous override was
/// saved, if there was one).
pub fn record_injection(
    storage: &mut StorageHandle,
    binary_path: &str,
    desktop_path: &str,
    backup_path: Option<&str>,
) -> (r: Result<(), StorageError>)
    ensures
        r is Ok,
        app_rows(*final(storage)).len() == app_rows(*old(storage)).len(),
        forall|i: int|
            0 <= i < app_rows(*old(storage)).len() ==> #[trigger] app_rows(*final(storage))[i] == (
            if app_rows(*old(storage))[i].0 == binary_path@ {
                (
                    binary_path@,
                    Some(desktop_path@),
                    match backup_path {
                        Some(b) => Some(b@),
                        None => None,
                    },
                )
            } else {
                app_rows(*old(storage))[i]
            }),
{
    let backup = match backup_path {
        Some(b) => Some(b.to_owned()),
        None => None,
    };
    set_injection(storage, binary_path, Some(desktop_path.to_owned()), backup);
    Ok(())
}

/// Forgets a target's injection state.
pub fn clear_injection(storage: &mut StorageHandle, binary_path: &str) -> (r: Result<
    (),
    StorageError,
>)
    ensures
        r is Ok,
        app_rows(*final(storage)).len() == app_rows(*old(storage)).len(),
        forall|i: int|
            0 <= i < app_rows(*old(storage)).len() ==> #[trigger] app_rows(*final(storage))[i] == (
            if app_rows(*old(storage))[i].0 == binary_path@ {
                (binary_path@, None, None)
            } else {
                app_rows(*old(storage))[i]
            }),
{
    set_injection(storage, binary_path, None, None);
    Ok(())
}

} // verus!
