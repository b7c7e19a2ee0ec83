use vstd::prelude::*;

use crate::service::Service;

verus! {

/// Why a session could not be destroyed.
#[derive(Debug, Clone, Copy, PartialEq, Eq, Structural)]
pub enum Error {
    SessionNotFound,
}


/// Destroys the session `id`; its model has one session fewer.
pub fn destroy(svc: &mut Service, id: u32, now: u64) -> (r: Result<(), Error>)
    requires
        old(svc).wf(),
        !old(svc).busy().contains(id),
    ensures
        final(svc).wf(),
        final(svc).busy() == old(svc).busy(),
        final(svc).next_id() == old(svc).next_id(),
        final(svc).sessions().remove(id) == old(svc).sessions().remove(id),
        !old(svc).found(id, now) ==> !final(svc).is_live(id),
        !old(svc).found(id, now) ==> r == Err::<(), Error>(Error::SessionNotFound),
        old(svc).found(id, now) ==> r is Ok,
        !final(svc).is_live(id),
{
    let _entry = match svc.checkout(id, now) {
        Ok(e) => e,
        Err(_) => return Err(Error::SessionNotFound),
    };
    svc.drop_checked_out(id);
    proof {
        assert(final(svc).sessions().remove(id) =~= old(svc).sessions().remove(id));
    }
    Ok(())
}

} // verus!
