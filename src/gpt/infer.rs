use vstd::prelude::*;

use crate::generation::InferRun;
use crate::kv::{prefill_spec, KvPlan, Token};
use crate::service::{Service, SessionEntry};
use crate::session::SessionView;

verus! {

/// Why an inference failed.
#[derive(Debug, Clone, Copy, PartialEq, Eq, Structural)]
pub enum Error {
    SessionNotFound,
    ContextOverflow,
    GrammarInvalid,
    DecodeFailed,
}

#[derive(Debug, Clone, Copy, PartialEq, Eq, Structural)]
pub enum MirostatVersion {
    V1,
    V2,
}

/// Mirostat sampling; `tau` and `eta` are the bit patterns of `f32` values.
#[derive(Debug, Clone, Copy, PartialEq, Eq, Structural)]
pub struct Mirostat {
    pub version: MirostatVersion,
    pub tau: Option<u32>,
    pub eta: Option<u32>,
}

/// Dynamic temperature; `range` and `exponent` are `f32` bit patterns.
#[derive(Debug, Clone, Copy, PartialEq, Eq, Structural)]
pub struct Dynatemp {
    pub range: Option<u32>,
    pub exponent: Option<u32>,
}

/// Repetition penalties; `repeat`, `freq` and `present` are `f32` bit patterns.
#[derive(Debug, Clone, Copy, PartialEq, Eq, Structural)]
pub struct Penalty {
    pub last_n: Option<i32>,
    pub repeat: Option<u32>,
    pub freq: Option<u32>,
    pub present: Option<u32>,
    pub penalize_nl: Option<bool>,
}

/// Sampling options of one inference. Every real-valued option is the bit pattern
/// of an `f32` (`f32::to_bits`); `None` leaves the step out or keeps the runtime's
/// default. The sampling pipeline reads the grammar, the temperature, the filters and
/// mirostat; the other options go to the runtime as they are.
pub struct Options {
    pub n_prev: Option<i32>,
    pub n_probs: Option<i32>,
    pub min_keep: Option<i32>,
    pub dynatemp: Option<Dynatemp>,
    pub penalty: Option<Penalty>,
    pub grammar: Option<String>,
    pub temp: Option<u32>,
    pub top_k: Option<i32>,
    pub tfs_z: Option<u32>,
    pub typical_p: Option<u32>,
    pub top_p: Option<u32>,
    pub min_p: Option<u32>,
    pub mirostat: Option<Mirostat>,
    pub seed: Option<u32>,
    pub stop_sequences: Option<Vec<String>>,
}


/// An inference in progress: the session stays taken, and so busy, until `finish`.
pub struct Inference {
    pub id: u32,
    pub entry: SessionEntry,
    pub run: InferRun,
}

/// Starts an inference on the session `id`: its previous uncommitted tail is dropped and
/// the inline `prompt` (which may be empty) takes its place. The loop then owes `n_eval`
/// tokens, ends at `eos`, and ends at the first of `stop_sequences` that the output ends with.
pub fn begin(
    svc: &mut Service,
    id: u32,
    prompt: &Vec<Token>,
    n_eval: usize,
    eos: Token,
    stop_sequences: Vec<Vec<u8>>,
    now: u64,
) -> (r: Result<(Inference, KvPlan), Error>)
    requires
        old(svc).wf(),
        !old(svc).busy().contains(id),
    ensures
        final(svc).wf(),
        final(svc).next_id() == old(svc).next_id(),
        final(svc).sessions().remove(id) == old(svc).sessions().remove(id),
        !old(svc).found(id, now) ==> !final(svc).is_live(id) && final(svc).busy() == old(svc).busy()
            && r is Err && r == Err::<(Inference, KvPlan), Error>(Error::SessionNotFound),
        old(svc).found(id, now) ==> {
            let v = old(svc).session_view(id);
            &&& !v.fits(prompt@.len() as int) ==> r == Err::<(Inference, KvPlan), Error>(Error::ContextOverflow)
                && final(svc).session_view(id) == v && final(svc).sessions().contains_key(id)
                && final(svc).busy() == old(svc).busy()
            &&& v.fits(prompt@.len() as int) ==> (r matches Ok((inf, p)) && {
                &&& inf.id == id
                &&& !final(svc).sessions().contains_key(id)
                &&& final(svc).busy() == old(svc).busy().insert(id)
                &&& inf.entry.session@ == v.infer_started(prompt@)
                &&& inf.entry.session@.wf()
                &&& inf.entry.model_id == old(svc).sessions()[id].model_id
                &&& inf.entry.model_id@ == final(svc).busy_models()[id]@
                &&& p.clear_from == v.cleanup_from()
                &&& p.batch@ == prefill_spec(v.committed, prompt@)
                &&& p.apply(v.cache()) == inf.entry.session@.cache()
                &&& inf.run.n_eval() == n_eval
                &&& inf.run.generated() == 0
                &&& inf.run.eos() == eos
                &&& inf.run.stopped() is None
                &&& inf.run.output().len() == 0
            })
        },
{
    let mut entry = match svc.checkout(id, now) {
        Ok(e) => e,
        Err(_) => return Err(Error::SessionNotFound),
    };
    match entry.session.begin_infer(prompt) {
        Err(e) => {
            svc.checkin(id, entry, now);
            proof {
                assert(final(svc).sessions().remove(id) =~= old(svc).sessions().remove(id));
                assert(final(svc).busy() =~= old(svc).busy());
            }
            Err(e)
        },
        Ok(p) => {
            let run = InferRun::new(n_eval, eos, stop_sequences);
            Ok((Inference { id, entry, run }, p))
        },
    }
}

/// Ends an inference: the session is handed back, last used at `now`, and its abort flag
/// is read and cleared. Returns how many tokens were generated and whether the flag was set.
pub fn finish(svc: &mut Service, inference: Inference, now: u64) -> (r: (usize, bool))
    requires
        old(svc).wf(),
        old(svc).busy().contains(inference.id),
        inference.entry.session@.wf(),
        inference.entry.model_id@ == old(svc).busy_models()[inference.id]@,
    ensures
        final(svc).wf(),
        final(svc).busy() == old(svc).busy().remove(inference.id),
        final(svc).sessions().contains_key(inference.id),
        final(svc).session_view(inference.id) == inference.entry.session@,
        final(svc).sessions().remove(inference.id) == old(svc).sessions().remove(inference.id),
        r.0 == inference.run.generated(),
        r.1 == old(svc).aborts().contains(inference.id),
        !final(svc).aborts().contains(inference.id),
{
    let Inference { id, entry, run } = inference;
    let n = run.generated_count();
    svc.checkin(id, entry, now);
    let aborted = svc.take_abort(id);
    proof {
        assert(final(svc).sessions().remove(id) =~= old(svc).sessions().remove(id));
    }
    (n, aborted)
}

} // verus!
