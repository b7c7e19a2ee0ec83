use vstd::prelude::*;

use crate::kv::KvPlan;
use crate::service::Service;
use crate::session::clear_only;

verus! {

/// Why a reset failed.
#[derive(Debug, Clone, Copy, PartialEq, Eq, Structural)]
pub enum Error {
    SessionNotFound,
}


/// Takes the session `id` back to its initial prompt. Returns the new committed
/// length and the runtime's plan, which clears the cache from there on.
pub fn reset(svc: &mut Service, id: u32, now: u64) -> (r: Result<(usize, KvPlan), Error>)
    requires
        old(svc).wf(),
        !old(svc).busy().contains(id),
    ensures
        final(svc).wf(),
        final(svc).busy() == old(svc).busy(),
        final(svc).next_id() == old(svc).next_id(),
        final(svc).sessions().remove(id) == old(svc).sessions().remove(id),
        !old(svc).found(id, now) ==> !final(svc).is_live(id),
        !old(svc).found(id, now) ==> r == Err::<(usize, KvPlan), Error>(Error::SessionNotFound),
        old(svc).found(id, now) ==> {
            let v = old(svc).session_view(id);
            &&& final(svc).sessions().contains_key(id)
            &&& final(svc).sessions()[id].last_used == now
            &&& final(svc).session_view(id) == v.reset()
            &&& final(svc).session_view(id).committed.len() == v.initial_prompt_len
            &&& final(svc).session_view(id).uncommitted.len() == 0
            &&& r matches Ok((n, p)) && n == v.initial_prompt_len && clear_only(p, n)
                && p.apply(v.cache()) == final(svc).session_view(id).cache()
        },
{
    let mut entry = match svc.checkout(id, now) {
        Ok(e) => e,
        Err(_) => return Err(Error::SessionNotFound),
    };
    let (p, n) = entry.session.reset();
    svc.checkin(id, entry, now);
    proof {
        assert(final(svc).sessions().remove(id) =~= old(svc).sessions().remove(id));
    }
    Ok((n, p))
}

} // verus!
