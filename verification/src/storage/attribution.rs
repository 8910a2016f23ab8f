//! The original socket address of the attribution daemon, saved before any
//! reconfiguration; the last saved value is the one to restore.

use vstd::prelude::*;

use super::{StorageError, StorageHandle};

verus! {

pub open spec fn origin_rows(s: StorageHandle) -> Seq<Seq<char>> {
    s.origin_sockets@.map_values(|a: String| a@)
}

/// Appends an original address (earlier ones are kept).
pub fn save_origin_socket(storage: &mut StorageHandle, address: &str) -> (r: Result<
    (),
    StorageError,
>)
    ensures
        r is Ok,
        origin_rows(*final(storage)) == origin_rows(*old(storage)).push(address@),
        final(storage).flows == old(storage).flows,
        final(storage).system_events == old(storage).system_events,
{
    let ghost before = storage.origin_sockets@;
    storage.origin_sockets.push(address.to_owned());
    assert(origin_rows(*storage) =~= before.map_values(|a: String| a@).push(address@));
    Ok(())
}

/// The last saved original address.
pub fn read_origin_socket(storage: &StorageHandle) -> (r: Result<Option<String>, StorageError>)
    ensures
        r is Ok,
        r matches Ok(None) ==> origin_rows(*storage).len() == 0,
        r matches Ok(Some(a)) ==> origin_rows(*storage).len() > 0 && a@ == origin_rows(
            *storage,
        ).last(),
{
    let n = storage.origin_sockets.len();
    if n == 0 {
        Ok(None)
    } else {
        Ok(Some(storage.origin_sockets[n - 1].clone()))
    }
}

} // verus!
