use vstd::prelude::*;

use crate::gpt::decode::Error as DecodeError;
use crate::gpt::infer::Error as InferError;
use crate::kv::{
    apply_plan, clear_spec, lemma_prefill_appends, prefill_batch, prefill_spec, write_batch,
    BatchEntry, KvPlan, Token,
};

verus! {

/// What a session holds, as mathematics.
pub struct SessionView {
    /// The authoritative prefix, present in the cache.
    pub committed: Seq<Token>,
    /// What the latest inference added, cached after `committed` until it is committed or dropped.
    pub uncommitted: Seq<Token>,
    /// How many tokens of `committed` belong to the initial prompt.
    pub initial_prompt_len: nat,
    /// The largest number of cache positions.
    pub capacity: nat,
}

impl SessionView {
    pub open spec fn wf(self) -> bool {
        &&& self.committed.len() + self.uncommitted.len() <= self.capacity
        &&& self.initial_prompt_len <= self.committed.len()
        &&& self.capacity <= usize::MAX
    }

    /// The tokens whose entries the cache holds, position by position.
    pub open spec fn cache(self) -> Seq<Token> {
        self.committed + self.uncommitted
    }

    pub open spec fn fits(self, more: int) -> bool {
        self.committed.len() + more <= self.capacity
    }

    /// The session after `decode(t)`, where `t` fits.
    pub open spec fn decoded(self, t: Seq<Token>) -> SessionView {
        SessionView { committed: self.committed + t, uncommitted: Seq::empty(), ..self }
    }

    /// The session after an inference begins with the inline prompt `p`, where `p` fits.
    pub open spec fn infer_started(self, p: Seq<Token>) -> SessionView {
        SessionView { uncommitted: p, ..self }
    }

    /// The session after an inference appends a generated token.
    pub open spec fn generated(self, t: Token) -> SessionView {
        SessionView { uncommitted: self.uncommitted.push(t), ..self }
    }

    /// The session after an inference appends the generated tokens `g`, one by one.
    pub open spec fn generated_all(self, g: Seq<Token>) -> SessionView {
        SessionView { uncommitted: self.uncommitted + g, ..self }
    }

    pub open spec fn committed_all(self) -> SessionView {
        SessionView { committed: self.committed + self.uncommitted, uncommitted: Seq::empty(), ..self }
    }

    pub open spec fn rolled_back(self, len: nat) -> SessionView {
        SessionView {
            committed: self.committed.subrange(0, len as int),
            uncommitted: Seq::empty(),
            ..self
        }
    }

    pub open spec fn reset(self) -> SessionView {
        self.rolled_back(self.initial_prompt_len)
    }

    /// The session after a snapshot of `t` is loaded into a fresh one.
    pub open spec fn restored(self, t: Seq<Token>) -> SessionView {
        SessionView { committed: t, uncommitted: Seq::empty(), initial_prompt_len: t.len(), ..self }
    }

    pub open spec fn empty(capacity: nat) -> SessionView {
        SessionView {
            committed: Seq::empty(),
            uncommitted: Seq::empty(),
            initial_prompt_len: 0,
            capacity,
        }
    }

    /// Where a plan that replaces the uncommitted part starts clearing.
    pub open spec fn cleanup_from(self) -> Option<usize> {
        if self.uncommitted.len() > 0 {
            Some(self.committed.len() as usize)
        } else {
            None
        }
    }
}

/// Per-session token logs: the committed prefix and the uncommitted tail that the
/// cache holds after it.
pub struct Session {
    committed: Vec<Token>,
    uncommitted: Vec<Token>,
    initial_prompt_len: usize,
    capacity: usize,
}

impl View for Session {
    type V = SessionView;

    closed spec fn view(&self) -> SessionView {
        SessionView {
            committed: self.committed@,
            uncommitted: self.uncommitted@,
            initial_prompt_len: self.initial_prompt_len as nat,
            capacity: self.capacity as nat,
        }
    }
}

fn extend_tokens(dst: &mut Vec<Token>, src: &Vec<Token>)
    requires
        old(dst)@.len() + src@.len() <= usize::MAX,
    ensures
        final(dst)@ == old(dst)@ + src@,
{
    let ghost start = dst@;
    let mut i: usize = 0;
    while i < src.len()
        invariant
            i <= src@.len(),
            start.len() + src@.len() <= usize::MAX,
            dst@ =~= start + src@.subrange(0, i as int),
        decreases src@.len() - i,
    {
        dst.push(src[i]);
        i = i + 1;
        assert(dst@ =~= start + src@.subrange(0, i as int));
    }
    assert(src@.subrange(0, src@.len() as int) =~= src@);
}

fn copy_tokens(src: &Vec<Token>) -> (r: Vec<Token>)
    ensures
        r@ == src@,
{
    let mut r: Vec<Token> = Vec::new();
    let _n = src.len();
    extend_tokens(&mut r, src);
    assert(Seq::<Token>::empty() + src@ =~= src@);
    r
}

/// The plan of an operation that only drops the cache from `from` on.
pub open spec fn clear_only(p: KvPlan, from: usize) -> bool {
    p.clear_from == Some(from) && p.batch@.len() == 0
}

proof fn lemma_clear_cache(v: SessionView, len: nat)
    requires
        v.wf(),
        len <= v.committed.len(),
    ensures
        apply_plan(v.cache(), Some(len as usize), Seq::empty()) == v.rolled_back(len).cache(),
{
    let c = v.cache();
    if len < c.len() {
        assert(clear_spec(c, len as int) =~= v.committed.subrange(0, len as int));
    } else {
        assert(v.committed.subrange(0, len as int) =~= v.committed);
        assert(v.uncommitted.len() == 0);
    }
    assert(v.rolled_back(len).cache() =~= v.committed.subrange(0, len as int));
}

/// The cache that a plan with a cleanup and a prefill leaves.
proof fn lemma_prefill_cache(v: SessionView, t: Seq<Token>)
    requires
        v.wf(),
        v.fits(t.len() as int),
    ensures
        apply_plan(v.cache(), v.cleanup_from(), prefill_spec(v.committed, t)) == v.committed + t,
{
    let c = v.cache();
    if v.uncommitted.len() > 0 {
        assert(clear_spec(c, v.committed.len() as int) =~= v.committed);
    } else {
        assert(c =~= v.committed);
    }
    lemma_prefill_appends(v.committed, t);
}

impl Session {
    /// A session with an empty cache of `capacity` positions.
    pub fn new(capacity: usize) -> (s: Session)
        ensures
            s@ == SessionView::empty(capacity as nat),
            s@.wf(),
    {
        Session { committed: Vec::new(), uncommitted: Vec::new(), initial_prompt_len: 0, capacity }
    }

    pub fn committed_len(&self) -> (r: usize)
        ensures
            r == self@.committed.len(),
    {
        self.committed.len()
    }

    pub fn uncommitted_len(&self) -> (r: usize)
        ensures
            r == self@.uncommitted.len(),
    {
        self.uncommitted.len()
    }

    /// How many positions the cache holds: the committed and the uncommitted tokens.
    pub fn kv_cache_size(&self) -> (r: usize)
        requires
            self@.wf(),
        ensures
            r == self@.cache().len(),
    {
        self.committed.len() + self.uncommitted.len()
    }

    pub fn initial_prompt_len(&self) -> (r: usize)
        ensures
            r == self@.initial_prompt_len,
    {
        self.initial_prompt_len
    }

    pub fn capacity(&self) -> (r: usize)
        ensures
            r == self@.capacity,
    {
        self.capacity
    }

    /// The committed tokens, as they would be saved with a snapshot.
    pub fn committed_tokens(&self) -> (r: Vec<Token>)
        ensures
            r@ == self@.committed,
    {
        copy_tokens(&self.committed)
    }

    pub fn uncommitted_tokens(&self) -> (r: Vec<Token>)
        ensures
            r@ == self@.uncommitted,
    {
        copy_tokens(&self.uncommitted)
    }

    /// Appends `tokens` to the committed log, after dropping the uncommitted tail.
    /// The plan clears the uncommitted positions, decodes the last committed token
    /// again as the head, then the new tokens; the last new token is the new head.
    pub fn decode(&mut self, tokens: &Vec<Token>) -> (r: Result<KvPlan, DecodeError>)
        requires
            old(self)@.wf(),
        ensures
            final(self)@.wf(),
            r is Err <==> !old(self)@.fits(tokens@.len() as int),
            r is Err ==> r == Err::<KvPlan, DecodeError>(DecodeError::ContextOverflow)
                && final(self)@ == old(self)@,
            r matches Ok(p) ==> {
                &&& final(self)@ == old(self)@.decoded(tokens@)
                &&& p.clear_from == old(self)@.cleanup_from()
                &&& p.batch@ == prefill_spec(old(self)@.committed, tokens@)
                &&& p.apply(old(self)@.cache()) == final(self)@.cache()
            },
    {
        if tokens.len() > self.capacity - self.committed.len() {
            return Err(DecodeError::ContextOverflow);
        }
        let clear_from = if self.uncommitted.len() > 0 {
            Some(self.committed.len())
        } else {
            None
        };
        let batch = prefill_batch(&self.committed, tokens);
        proof {
            lemma_prefill_cache(self@, tokens@);
        }
        self.uncommitted.clear();
        extend_tokens(&mut self.committed, tokens);
        proof {
            assert(self@.cache() =~= self@.committed);
        }
        Ok(KvPlan { clear_from, batch })
    }

    /// Starts an inference: drops the previous uncommitted tail and puts the inline
    /// `prompt` (which may be empty) in its place, uncommitted.
    pub fn begin_infer(&mut self, prompt: &Vec<Token>) -> (r: Result<KvPlan, InferError>)
        requires
            old(self)@.wf(),
        ensures
            final(self)@.wf(),
            r is Err <==> !old(self)@.fits(prompt@.len() as int),
            r is Err ==> r == Err::<KvPlan, InferError>(InferError::ContextOverflow)
                && final(self)@ == old(self)@,
            r matches Ok(p) ==> {
                &&& final(self)@ == old(self)@.infer_started(prompt@)
                &&& p.clear_from == old(self)@.cleanup_from()
                &&& p.batch@ == prefill_spec(old(self)@.committed, prompt@)
                &&& p.apply(old(self)@.cache()) == final(self)@.cache()
            },
    {
        if prompt.len() > self.capacity - self.committed.len() {
            return Err(InferError::ContextOverflow);
        }
        let clear_from = if self.uncommitted.len() > 0 {
            Some(self.committed.len())
        } else {
            None
        };
        let batch = prefill_batch(&self.committed, prompt);
        proof {
            lemma_prefill_cache(self@, prompt@);
        }
        self.uncommitted = copy_tokens(prompt);
        Ok(KvPlan { clear_from, batch })
    }

    /// Appends a generated token to the uncommitted tail; the plan decodes it as the new head.
    pub fn push_generated(&mut self, token: Token) -> (p: KvPlan)
        requires
            old(self)@.wf(),
            old(self)@.cache().len() < old(self)@.capacity,
        ensures
            final(self)@.wf(),
            final(self)@ == old(self)@.generated(token),
            p.clear_from is None,
            p.batch@ == seq![BatchEntry { token, pos: old(self)@.cache().len() as usize, logits: true }],
            p.apply(old(self)@.cache()) == final(self)@.cache(),
    {
        let pos = self.committed.len() + self.uncommitted.len();
        self.uncommitted.push(token);
        let mut batch: Vec<BatchEntry> = Vec::new();
        batch.push(BatchEntry { token, pos, logits: true });
        proof {
            let b = batch@;
            assert(b.drop_last() =~= Seq::<BatchEntry>::empty());
            assert(write_batch(old(self)@.cache(), b.drop_last()) == old(self)@.cache());
            assert(self@.cache() =~= old(self)@.cache().push(token));
        }
        KvPlan { clear_from: None, batch }
    }

    /// Moves the uncommitted tail onto the committed log; the cache already holds it.
    /// Returns the new committed length.
    pub fn commit(&mut self) -> (r: usize)
        requires
            old(self)@.wf(),
        ensures
            final(self)@.wf(),
            final(self)@ == old(self)@.committed_all(),
            r == final(self)@.committed.len(),
            final(self)@.cache() == old(self)@.cache(),
    {
        extend_tokens(&mut self.committed, &self.uncommitted);
        self.uncommitted.clear();
        proof {
            assert(self@.cache() =~= old(self)@.cache());
        }
        self.committed.len()
    }

    /// Truncates the committed log to `len` tokens and drops the uncommitted tail;
    /// the plan clears the cache from `len` on.
    pub fn rollback_to(&mut self, len: usize) -> (p: KvPlan)
        requires
            old(self)@.wf(),
            old(self)@.initial_prompt_len <= len <= old(self)@.committed.len(),
        ensures
            final(self)@.wf(),
            final(self)@ == old(self)@.rolled_back(len as nat),
            clear_only(p, len),
            p.apply(old(self)@.cache()) == final(self)@.cache(),
    {
        proof {
            lemma_clear_cache(self@, len as nat);
        }
        self.committed.truncate(len);
        self.uncommitted.clear();
        proof {
            assert(self@.committed =~= old(self)@.committed.subrange(0, len as int));
        }
        let batch: Vec<BatchEntry> = Vec::new();
        proof {
            assert(batch@ =~= Seq::<BatchEntry>::empty());
        }
        KvPlan { clear_from: Some(len), batch }
    }

    /// Drops the uncommitted tail, as after a runtime fault in the middle of an
    /// inference; the plan clears its positions.
    pub fn discard_uncommitted(&mut self) -> (p: KvPlan)
        requires
            old(self)@.wf(),
        ensures
            final(self)@.wf(),
            final(self)@ == old(self)@.rolled_back(old(self)@.committed.len()),
            final(self)@.committed == old(self)@.committed,
            final(self)@.uncommitted.len() == 0,
            clear_only(p, old(self)@.committed.len() as usize),
            p.apply(old(self)@.cache()) == final(self)@.cache(),
    {
        let n = self.committed.len();
        let p = self.rollback_to(n);
        proof {
            assert(old(self)@.committed.subrange(0, n as int) =~= old(self)@.committed);
        }
        p
    }

    /// Whether the next prompt is tokenized with a beginning-of-stream token: only
    /// into an empty session.
    pub fn needs_bos(&self) -> (r: bool)
        ensures
            r == (self@.committed.len() == 0),
    {
        self.committed.len() == 0
    }

    /// Goes back to the initial prompt: the committed log is truncated to it and the
    /// uncommitted tail dropped. Returns the plan and the new committed length.
    pub fn reset(&mut self) -> (r: (KvPlan, usize))
        requires
            old(self)@.wf(),
        ensures
            final(self)@.wf(),
            final(self)@ == old(self)@.reset(),
            final(self)@.committed.len() == old(self)@.initial_prompt_len,
            final(self)@.uncommitted.len() == 0,
            r.1 == old(self)@.initial_prompt_len,
            clear_only(r.0, r.1),
            r.0.apply(old(self)@.cache()) == final(self)@.cache(),
    {
        let len = self.initial_prompt_len;
        let p = self.rollback_to(len);
        (p, len)
    }

    /// Marks everything committed so far as the initial prompt.
    pub fn mark_initial_prompt(&mut self)
        requires
            old(self)@.wf(),
        ensures
            final(self)@.wf(),
            final(self)@ == (SessionView { initial_prompt_len: old(self)@.committed.len(), ..old(self)@ }),
    {
        self.initial_prompt_len = self.committed.len();
    }

    /// Takes the tokens of a loaded snapshot as the committed log and the initial prompt
    /// of a fresh session. Returns false, and changes nothing, where they do not fit.
    pub fn restore(&mut self, tokens: &Vec<Token>) -> (ok: bool)
        requires
            old(self)@.wf(),
            old(self)@.committed.len() == 0,
            old(self)@.uncommitted.len() == 0,
        ensures
            final(self)@.wf(),
            ok == (tokens@.len() <= old(self)@.capacity),
            ok ==> final(self)@ == old(self)@.restored(tokens@),
            !ok ==> final(self)@ == old(self)@,
    {
        if tokens.len() > self.capacity {
            return false;
        }
        self.committed = copy_tokens(tokens);
        self.initial_prompt_len = tokens.len();
        proof {
            assert(self@.uncommitted =~= Seq::<Token>::empty());
        }
        true
    }
}

/// Inferring (from the state `s`, with the inline prompt `p`, generating `g`) and then
/// committing leaves the same logs, and so the same cache, as decoding `p + g` from `s`.
pub proof fn lemma_infer_then_commit_is_decode(s: SessionView, p: Seq<Token>, g: Seq<Token>)
    requires
        s.wf(),
        s.fits((p.len() + g.len()) as int),
    ensures
        s.infer_started(p).generated_all(g).committed_all() == s.decoded(p + g),
        s.infer_started(p).generated_all(g).committed_all().cache() == s.decoded(p + g).cache(),
{
    assert(s.committed + (p + g) =~= s.committed + (Seq::<Token>::empty() + p + g));
    assert(s.infer_started(p).generated_all(g).committed_all().committed =~= s.committed + (p + g));
}

/// Two inferences without a commit between them start from the same committed prefix:
/// whatever the first one generated, the second begins as it would have without it.
pub proof fn lemma_second_infer_independent(
    s: SessionView,
    first: Seq<Token>,
    generated: Seq<Token>,
    second: Seq<Token>,
)
    requires
        s.wf(),
    ensures
        s.infer_started(first).generated_all(generated).committed == s.committed,
        s.infer_started(first).generated_all(generated).infer_started(second) == s.infer_started(second),
        s.infer_started(first).generated_all(generated).cleanup_from() is Some
            ==> s.infer_started(first).generated_all(generated).cleanup_from() == Some(s.committed.len() as usize),
{
}

/// Loading a snapshot of `t` and then decoding `u` yields the same tokens, and the same
/// cache, as decoding `t + u` into a fresh session.
pub proof fn lemma_snapshot_then_decode(capacity: nat, t: Seq<Token>, u: Seq<Token>)
    requires
        capacity <= usize::MAX,
        t.len() + u.len() <= capacity,
    ensures
        SessionView::empty(capacity).restored(t).decoded(u).committed
            == SessionView::empty(capacity).decoded(t + u).committed,
        SessionView::empty(capacity).restored(t).decoded(u).cache()
            == SessionView::empty(capacity).decoded(t + u).cache(),
{
    assert(Seq::<Token>::empty() + (t + u) =~= t + u);
    assert(SessionView::empty(capacity).restored(t).decoded(u).cache() =~= t + u);
    assert(SessionView::empty(capacity).decoded(t + u).cache() =~= t + u);
}

} // verus!
