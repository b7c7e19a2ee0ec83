use vstd::prelude::*;

use crate::kv::{prefill_spec, KvPlan, Token};
use crate::service::{id_after, model_pos, Service, SimularityModelInfo};
use crate::session::{Session, SessionView};

verus! {

/// Why a session could not be created.
#[derive(Debug, Clone, Copy, PartialEq, Eq, Structural)]
pub enum Error {
    ModelNotFound,
    SessionLimitReached,
    ContextCreationFailed,
    DecodeFailed,
}


/// How a new session starts.
pub enum Initial {
    /// With an empty cache.
    Empty,
    /// With these prompt tokens decoded and committed as the initial prompt.
    Prompt(Vec<Token>),
    /// With these tokens, whose cache the runtime loaded from a snapshot, as the initial prompt.
    Snapshot(Vec<Token>),
}

/// The tokens that a session starts with.
pub open spec fn initial_tokens(i: &Initial) -> Seq<Token> {
    match i {
        Initial::Empty => Seq::empty(),
        Initial::Prompt(t) => t@,
        Initial::Snapshot(t) => t@,
    }
}

/// The cache size of a model's sessions where none is asked for: the size it was trained on.
pub open spec fn trained_capacity(info: SimularityModelInfo) -> usize {
    if info.n_ctx_train < 0 {
        0
    } else if info.n_ctx_train as int > usize::MAX {
        usize::MAX
    } else {
        info.n_ctx_train as usize
    }
}

fn trained_capacity_exec(info: SimularityModelInfo) -> (r: usize)
    ensures
        r == trained_capacity(info),
{
    if info.n_ctx_train < 0 {
        0
    } else {
        let n = info.n_ctx_train as u64;
        if n as u128 > usize::MAX as u128 {
            usize::MAX
        } else {
            n as usize
        }
    }
}

/// The capacity of a new session on the model at `i`.
pub open spec fn capacity_for(svc: &Service, i: int, context_size: Option<usize>) -> usize {
    match context_size {
        Some(c) => c,
        None => trained_capacity(svc.models()[i].info),
    }
}

/// Creates a session on the model `model_id` with `context_size` cache positions (the
/// model's trained size by default), starting as `initial` says. Returns its id and
/// the runtime's plan, which decodes the initial prompt.
pub fn create(
    svc: &mut Service,
    model_id: &str,
    context_size: Option<usize>,
    initial: &Initial,
    now: u64,
) -> (r: Result<(u32, KvPlan), Error>)
    requires
        old(svc).wf(),
    ensures
        final(svc).wf(),
        final(svc).busy() == old(svc).busy(),
        model_pos(old(svc).models(), model_id@) < 0 ==> r == Err::<(u32, KvPlan), Error>(Error::ModelNotFound)
            && final(svc).sessions() == old(svc).sessions(),
        model_pos(old(svc).models(), model_id@) >= 0 ==> {
            let i = model_pos(old(svc).models(), model_id@);
            let cap = capacity_for(old(svc), i, context_size);
            let t = initial_tokens(initial);
            let id = old(svc).next_id();
            &&& old(svc).create_blocked(i) ==> r == Err::<(u32, KvPlan), Error>(Error::SessionLimitReached)
                && final(svc).sessions() == old(svc).sessions()
            &&& !old(svc).create_blocked(i) && t.len() > cap ==> r == Err::<(u32, KvPlan), Error>(Error::DecodeFailed)
                && final(svc).sessions() == old(svc).sessions()
            &&& !old(svc).create_blocked(i) && t.len() <= cap ==> (r matches Ok((rid, p)) && {
                &&& rid == id
                &&& final(svc).next_id() == id_after(id)
                &&& final(svc).sessions().contains_key(id)
                &&& final(svc).sessions().remove(id) == old(svc).sessions()
                &&& final(svc).session_view(id) == SessionView::empty(cap as nat).restored(t)
                &&& final(svc).sessions()[id].last_used == now
                &&& p.clear_from is None
                &&& (initial is Prompt ==> p.batch@ == prefill_spec(Seq::empty(), t))
                &&& (initial is Prompt ==> p.apply(Seq::empty()) == t)
                &&& (!(initial is Prompt) ==> p.batch@.len() == 0)
            })
        },
{
    let i = match svc.find_model(model_id) {
        None => return Err(Error::ModelNotFound),
        Some(i) => i,
    };
    if svc.create_blocked_exec(i) {
        return Err(Error::SessionLimitReached);
    }
    let cap = match context_size {
        Some(c) => c,
        None => trained_capacity_exec(svc.model_record_info(i)),
    };
    let mut session = Session::new(cap);
    let plan = match initial {
        Initial::Empty => KvPlan { clear_from: None, batch: Vec::new() },
        Initial::Prompt(t) => match session.decode(t) {
            Err(_) => return Err(Error::DecodeFailed),
            Ok(p) => {
                session.mark_initial_prompt();
                proof {
                    assert(Seq::<Token>::empty() + t@ =~= t@);
                    assert(session@ == SessionView::empty(cap as nat).restored(t@));
                }
                p
            },
        },
        Initial::Snapshot(t) => {
            if !session.restore(t) {
                return Err(Error::DecodeFailed);
            }
            KvPlan { clear_from: None, batch: Vec::new() }
        },
    };
    proof {
        if initial is Empty {
            assert(session@ =~= SessionView::empty(cap as nat).restored(Seq::empty()));
        }
    }
    match svc.insert_session(model_id, session, now) {
        Ok(id) => Ok((id, plan)),
        Err(e) => Err(e),
    }
}

} // verus!
