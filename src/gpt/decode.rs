use vstd::prelude::*;

use crate::kv::{KvPlan, Token};
use crate::service::Service;

verus! {

/// Why a decode failed.
#[derive(Debug, Clone, Copy, PartialEq, Eq, Structural)]
pub enum Error {
    SessionNotFound,
    ContextOverflow,
    DecodeFailed,
}


/// Appends `tokens` to the committed log of the session `id`, after dropping its
/// uncommitted tail. Returns the new context length and the runtime's plan.
pub fn decode(svc: &mut Service, id: u32, tokens: &Vec<Token>, now: u64) -> (r: Result<(usize, KvPlan), Error>)
    requires
        old(svc).wf(),
        !old(svc).busy().contains(id),
    ensures
        final(svc).wf(),
        final(svc).busy() == old(svc).busy(),
        final(svc).next_id() == old(svc).next_id(),
        final(svc).sessions().remove(id) == old(svc).sessions().remove(id),
        !old(svc).found(id, now) ==> !final(svc).is_live(id),
        !old(svc).found(id, now) ==> r == Err::<(usize, KvPlan), Error>(Error::SessionNotFound),
        old(svc).found(id, now) ==> {
            let v = old(svc).session_view(id);
            &&& final(svc).sessions().contains_key(id)
            &&& final(svc).sessions()[id].last_used == now
            &&& !v.fits(tokens@.len() as int) ==> r == Err::<(usize, KvPlan), Error>(Error::ContextOverflow)
                && final(svc).session_view(id) == v
            &&& v.fits(tokens@.len() as int) ==> (r matches Ok((n, p)) && {
                &&& final(svc).session_view(id) == v.decoded(tokens@)
                &&& n == final(svc).session_view(id).cache().len()
                &&& p.apply(v.cache()) == final(svc).session_view(id).cache()
            })
        },
{
    let mut entry = match svc.checkout(id, now) {
        Ok(e) => e,
        Err(_) => return Err(Error::SessionNotFound),
    };
    let out = match entry.session.decode(tokens) {
        Ok(p) => Ok((entry.session.committed_len(), p)),
        Err(e) => Err(e),
    };
    svc.checkin(id, entry, now);
    proof {
        assert(final(svc).sessions().remove(id) =~= old(svc).sessions().remove(id));
    }
    out
}

} // verus!
