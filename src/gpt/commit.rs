use vstd::prelude::*;

use crate::service::Service;

verus! {

/// Why a commit failed.
#[derive(Debug, Clone, Copy, PartialEq, Eq, Structural)]
pub enum Error {
    SessionNotFound,
}


/// Moves the uncommitted tail of the session `id` onto its committed log.
/// Returns the new committed length.
pub fn commit(svc: &mut Service, id: u32, now: u64) -> (r: Result<usize, Error>)
    requires
        old(svc).wf(),
        !old(svc).busy().contains(id),
    ensures
        final(svc).wf(),
        final(svc).busy() == old(svc).busy(),
        final(svc).next_id() == old(svc).next_id(),
        final(svc).sessions().remove(id) == old(svc).sessions().remove(id),
        !old(svc).found(id, now) ==> !final(svc).is_live(id),
        !old(svc).found(id, now) ==> r == Err::<usize, Error>(Error::SessionNotFound),
        old(svc).found(id, now) ==> {
            let v = old(svc).session_view(id);
            &&& final(svc).sessions().contains_key(id)
            &&& final(svc).sessions()[id].last_used == now
            &&& final(svc).session_view(id) == v.committed_all()
            &&& final(svc).session_view(id).cache() == v.cache()
            &&& r == Ok::<usize, Error>(final(svc).session_view(id).committed.len() as usize)
        },
{
    let mut entry = match svc.checkout(id, now) {
        Ok(e) => e,
        Err(_) => return Err(Error::SessionNotFound),
    };
    let n = entry.session.commit();
    svc.checkin(id, entry, now);
    proof {
        assert(final(svc).sessions().remove(id) =~= old(svc).sessions().remove(id));
    }
    Ok(n)
}

} // verus!
