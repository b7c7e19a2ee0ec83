use vstd::prelude::*;

use crate::service::Service;

pub mod commit;
pub mod create;
pub mod decode;
pub mod destroy;
pub mod infer;
pub mod reset;
pub mod token_length;

verus! {

/// Whether the session `id` exists and has not expired at `now`; where it exists,
/// its expiry is pushed back. A session that an operation holds counts as existing.
pub fn touch(svc: &mut Service, id: u32, now: u64) -> (r: bool)
    requires
        old(svc).wf(),
    ensures
        final(svc).wf(),
        final(svc).busy() == old(svc).busy(),
        final(svc).next_id() == old(svc).next_id(),
        final(svc).sessions().remove(id) == old(svc).sessions().remove(id),
        r == (old(svc).busy().contains(id) || old(svc).found(id, now)),
        old(svc).found(id, now) ==> final(svc).sessions().contains_key(id)
            && final(svc).sessions()[id].last_used == now
            && final(svc).session_view(id) == old(svc).session_view(id),
        !r ==> !final(svc).is_live(id),
{
    if svc.is_busy(id) {
        return true;
    }
    match svc.checkout(id, now) {
        Err(_) => {
            proof {
                assert(final(svc).sessions().remove(id) =~= old(svc).sessions().remove(id));
            }
            false
        },
        Ok(entry) => {
            svc.checkin(id, entry, now);
            proof {
                assert(final(svc).sessions().remove(id) =~= old(svc).sessions().remove(id));
                assert(final(svc).busy() =~= old(svc).busy());
            }
            true
        },
    }
}

} // verus!
