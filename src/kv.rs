use vstd::prelude::*;

verus! {

/// A token id of the model's vocabulary.
pub type Token = i32;

/// One position queued for a runtime decode step.
#[derive(Clone, Copy, Debug, PartialEq, Eq)]
pub struct BatchEntry {
    pub token: Token,
    pub pos: usize,
    /// Whether the runtime keeps logits for this position (the head).
    pub logits: bool,
}

/// The work that one session operation hands to the runtime, in this order:
/// drop every cache position from `clear_from` on, then decode `batch`.
pub struct KvPlan {
    pub clear_from: Option<usize>,
    pub batch: Vec<BatchEntry>,
}

/// The cache after every position from `from` on is dropped.
pub open spec fn clear_spec(kv: Seq<Token>, from: int) -> Seq<Token> {
    if 0 <= from < kv.len() {
        kv.subrange(0, from)
    } else {
        kv
    }
}

/// The cache after a decode step writes each entry of `batch` at its position;
/// a position one past the end grows the cache by one.
pub open spec fn write_batch(kv: Seq<Token>, batch: Seq<BatchEntry>) -> Seq<Token>
    decreases batch.len(),
{
    if batch.len() == 0 {
        kv
    } else {
        let before = write_batch(kv, batch.drop_last());
        let e = batch.last();
        if e.pos < before.len() {
            before.update(e.pos as int, e.token)
        } else if e.pos == before.len() {
            before.push(e.token)
        } else {
            before
        }
    }
}

/// The cache after the runtime carries out a plan.
pub open spec fn apply_plan(kv: Seq<Token>, clear_from: Option<usize>, batch: Seq<BatchEntry>) -> Seq<Token> {
    let cleared = match clear_from {
        Some(f) => clear_spec(kv, f as int),
        None => kv,
    };
    write_batch(cleared, batch)
}

impl KvPlan {
    pub open spec fn apply(&self, kv: Seq<Token>) -> Seq<Token> {
        apply_plan(kv, self.clear_from, self.batch@)
    }
}

/// The head entry: the last cached token, decoded again so that its logits are fresh.
pub open spec fn head_part(c: Seq<Token>) -> Seq<BatchEntry> {
    if c.len() == 0 {
        Seq::empty()
    } else {
        seq![BatchEntry { token: c.last(), pos: (c.len() - 1) as usize, logits: true }]
    }
}

/// New tokens at the positions that follow `n`; the last one becomes the head.
pub open spec fn tail_part(n: int, t: Seq<Token>) -> Seq<BatchEntry> {
    Seq::new(t.len(), |i: int| BatchEntry { token: t[i], pos: (n + i) as usize, logits: i == t.len() - 1 })
}

/// The prefill batch that appends `t` to a cache holding `c`.
pub open spec fn prefill_spec(c: Seq<Token>, t: Seq<Token>) -> Seq<BatchEntry> {
    head_part(c) + tail_part(c.len() as int, t)
}

/// Builds the prefill batch that appends `tokens` to a cache holding `cached`.
pub fn prefill_batch(cached: &Vec<Token>, tokens: &Vec<Token>) -> (r: Vec<BatchEntry>)
    requires
        cached@.len() + tokens@.len() <= usize::MAX,
    ensures
        r@ == prefill_spec(cached@, tokens@),
{
    let mut r: Vec<BatchEntry> = Vec::new();
    let n = cached.len();
    if n > 0 {
        r.push(BatchEntry { token: cached[n - 1], pos: n - 1, logits: true });
    }
    let ghost head = r@;
    assert(head =~= head_part(cached@));
    let k = tokens.len();
    let mut i: usize = 0;
    while i < k
        invariant
            i <= k,
            k == tokens@.len(),
            n == cached@.len(),
            n + k <= usize::MAX,
            head == head_part(cached@),
            r@ =~= head + tail_part(n as int, tokens@).subrange(0, i as int),
        decreases k - i,
    {
        r.push(BatchEntry { token: tokens[i], pos: n + i, logits: i == k - 1 });
        i = i + 1;
        assert(r@ =~= head + tail_part(n as int, tokens@).subrange(0, i as int));
    }
    assert(tail_part(n as int, tokens@).subrange(0, k as int) =~= tail_part(n as int, tokens@));
    r
}

/// Writing a batch in two parts is writing the whole.
pub proof fn lemma_write_batch_concat(kv: Seq<Token>, a: Seq<BatchEntry>, b: Seq<BatchEntry>)
    ensures
        write_batch(kv, a + b) == write_batch(write_batch(kv, a), b),
    decreases b.len(),
{
    if b.len() == 0 {
        assert(a + b =~= a);
    } else {
        assert((a + b).drop_last() =~= a + b.drop_last());
        lemma_write_batch_concat(kv, a, b.drop_last());
    }
}

/// A batch that puts `t` at the positions following the end of `kv` appends `t`.
pub proof fn lemma_write_appending(kv: Seq<Token>, b: Seq<BatchEntry>, t: Seq<Token>)
    requires
        b.len() == t.len(),
        forall|i: int| 0 <= i < b.len() ==> #[trigger] b[i].pos == kv.len() + i && b[i].token == t[i],
    ensures
        write_batch(kv, b) == kv + t,
    decreases b.len(),
{
    if b.len() == 0 {
        assert(kv + t =~= kv);
    } else {
        let bl = b.drop_last();
        let tl = t.drop_last();
        assert forall|i: int| 0 <= i < bl.len() implies #[trigger] bl[i].pos == kv.len() + i && bl[i].token == tl[i] by {
            assert(bl[i] == b[i]);
        }
        lemma_write_appending(kv, bl, tl);
        assert(b.last() == b[b.len() - 1]);
        assert((kv + tl).push(t.last()) =~= kv + t);
    }
}

/// The prefill batch leaves the cached tokens as they are and appends the new ones.
pub proof fn lemma_prefill_appends(c: Seq<Token>, t: Seq<Token>)
    requires
        c.len() + t.len() <= usize::MAX,
    ensures
        write_batch(c, prefill_spec(c, t)) == c + t,
{
    lemma_write_batch_concat(c, head_part(c), tail_part(c.len() as int, t));
    if c.len() > 0 {
        let h = head_part(c);
        assert(h.drop_last() =~= Seq::<BatchEntry>::empty());
        assert(write_batch(c, h.drop_last()) == c);
        assert(h.last().pos == c.len() - 1);
        assert(write_batch(c, h) == c.update(c.len() - 1, c.last()));
        assert(c.update(c.len() - 1, c.last()) =~= c);
    } else {
        assert(head_part(c) =~= Seq::<BatchEntry>::empty());
    }
    let tp = tail_part(c.len() as int, t);
    assert forall|i: int| 0 <= i < tp.len() implies #[trigger] tp[i].pos == c.len() + i && tp[i].token == t[i] by {}
    lemma_write_appending(c, tp, t);
}

} // verus!
