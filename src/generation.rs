use vstd::prelude::*;

use crate::kv::{KvPlan, Token};
use crate::session::{Session, SessionView};
use crate::text::{TextStream, MAX_CHUNK};

verus! {

/// Why a generation loop ended.
#[derive(Debug, Clone, Copy, PartialEq, Eq, Structural)]
pub enum StopReason {
    /// The requested number of tokens was generated.
    Limit,
    /// The cache has no free position left.
    ContextFull,
    /// The model produced its end-of-stream token.
    EndOfStream,
    /// The output came to end with a stop sequence.
    StopSequence,
    /// The per-token callback asked to stop.
    Cancelled,
    /// The session's abort flag was set.
    Aborted,
}

pub open spec fn ends_with(a: Seq<u8>, s: Seq<u8>) -> bool {
    s.len() <= a.len() && a.subrange(a.len() - s.len(), a.len() as int) == s
}

/// The first stop sequence that `out` ends with, if any.
pub open spec fn is_first_stop(out: Seq<u8>, stops: Seq<Seq<u8>>, i: int) -> bool {
    &&& 0 <= i < stops.len()
    &&& ends_with(out, stops[i])
    &&& forall|j: int| 0 <= j < i ==> !ends_with(out, #[trigger] stops[j])
}

pub open spec fn no_stop(out: Seq<u8>, stops: Seq<Seq<u8>>) -> bool {
    forall|j: int| 0 <= j < stops.len() ==> !ends_with(out, #[trigger] stops[j])
}

/// Whether `a` ends with `s`.
pub fn bytes_end_with(a: &Vec<u8>, s: &Vec<u8>) -> (r: bool)
    ensures
        r == ends_with(a@, s@),
{
    if s.len() > a.len() {
        return false;
    }
    let off = a.len() - s.len();
    let mut i: usize = 0;
    while i < s.len()
        invariant
            off + s@.len() == a@.len(),
            a@.len() <= usize::MAX,
            i <= s@.len(),
            forall|j: int| 0 <= j < i ==> a@[off + j] == s@[j],
        decreases s@.len() - i,
    {
        if a[off + i] != s[i] {
            assert(a@.subrange(off as int, a@.len() as int)[i as int] != s@[i as int]);
            return false;
        }
        i = i + 1;
    }
    assert(a@.subrange(off as int, a@.len() as int) =~= s@);
    true
}

/// The index of the first stop sequence that `out` ends with.
pub fn find_stop(out: &Vec<u8>, stops: &Vec<Vec<u8>>) -> (r: Option<usize>)
    ensures
        r matches Some(i) ==> is_first_stop(out@, stops_of(stops@), i as int),
        r is None ==> no_stop(out@, stops_of(stops@)),
{
    let ghost st = stops_of(stops@);
    let mut i: usize = 0;
    while i < stops.len()
        invariant
            i <= stops@.len(),
            st == stops_of(stops@),
            forall|j: int| 0 <= j < i ==> !ends_with(out@, #[trigger] st[j]),
        decreases stops@.len() - i,
    {
        if bytes_end_with(out, &stops[i]) {
            return Some(i);
        }
        i = i + 1;
    }
    None
}

fn append_bytes(dst: &mut Vec<u8>, src: &Vec<u8>)
    requires
        old(dst)@.len() + src@.len() <= usize::MAX,
    ensures
        final(dst)@ == old(dst)@ + src@,
{
    let ghost start = dst@;
    let mut k: usize = 0;
    while k < src.len()
        invariant
            k <= src@.len(),
            start.len() + src@.len() <= usize::MAX,
            dst@ =~= start + src@.subrange(0, k as int),
        decreases src@.len() - k,
    {
        dst.push(src[k]);
        k = k + 1;
    }
    assert(src@.subrange(0, src@.len() as int) =~= src@);
}

/// What the loop does with a sampled token.
pub enum TokenStep {
    /// The loop has ended; the token is not kept.
    Stop,
    /// Hand this text to the per-token callback, then call `after_emit`.
    Emit(String),
}

/// The state of one generation loop over a session: how many tokens are still owed,
/// the text produced so far, and the stop conditions.
pub struct InferRun {
    n_eval: usize,
    generated: usize,
    eos: Token,
    stop_sequences: Vec<Vec<u8>>,
    output: Vec<u8>,
    text: TextStream,
    stopped: Option<StopReason>,
}

/// The stop sequences, as byte strings.
pub open spec fn stops_of(v: Seq<Vec<u8>>) -> Seq<Seq<u8>> {
    v.map_values(|s: Vec<u8>| s@)
}

impl InferRun {
    pub closed spec fn n_eval(&self) -> nat {
        self.n_eval as nat
    }

    pub closed spec fn generated(&self) -> nat {
        self.generated as nat
    }

    pub closed spec fn eos(&self) -> Token {
        self.eos
    }

    pub closed spec fn stops(&self) -> Seq<Seq<u8>> {
        stops_of(self.stop_sequences@)
    }

    /// The bytes produced so far, stop sequence removed.
    pub closed spec fn output(&self) -> Seq<u8> {
        self.output@
    }

    /// Every byte that the tokens kept or stopped at have produced.
    pub closed spec fn fed(&self) -> Seq<u8> {
        self.text.fed()
    }

    pub closed spec fn stopped(&self) -> Option<StopReason> {
        self.stopped
    }

    /// A loop that owes `n_eval` tokens, ends at the token `eos`, and ends where the
    /// output comes to end with one of `stop_sequences` (the first that matches).
    pub fn new(n_eval: usize, eos: Token, stop_sequences: Vec<Vec<u8>>) -> (r: InferRun)
        ensures
            r.n_eval() == n_eval,
            r.generated() == 0,
            r.eos() == eos,
            r.stops() == stops_of(stop_sequences@),
            r.output() == Seq::<u8>::empty(),
            r.fed() == Seq::<u8>::empty(),
            r.stopped() is None,
    {
        InferRun {
            n_eval,
            generated: 0,
            eos,
            stop_sequences,
            output: Vec::new(),
            text: TextStream::new(),
            stopped: None,
        }
    }

    pub fn generated_count(&self) -> (r: usize)
        ensures
            r == self.generated(),
    {
        self.generated
    }

    pub fn stop_reason(&self) -> (r: Option<StopReason>)
        ensures
            r == self.stopped(),
    {
        self.stopped
    }

    /// The bytes produced so far, stop sequence removed.
    pub fn output_bytes(&self) -> (r: Vec<u8>)
        ensures
            r@ == self.output(),
    {
        let mut r: Vec<u8> = Vec::new();
        let mut i: usize = 0;
        while i < self.output.len()
            invariant
                i <= self.output@.len(),
                r@ =~= self.output@.subrange(0, i as int),
            decreases self.output@.len() - i,
        {
            r.push(self.output[i]);
            i = i + 1;
        }
        r
    }

    /// Whether the loop samples another token: it has not ended, owes tokens, and the
    /// cache has a free position. Where it owes none, or the cache is full, the loop ends here.
    pub fn wants_token(&mut self, session: &Session) -> (r: bool)
        requires
            session@.wf(),
        ensures
            r == (old(self).stopped() is None && old(self).generated() < old(self).n_eval()
                && session@.cache().len() < session@.capacity),
            final(self).stopped() == (if old(self).stopped() is Some || r {
                old(self).stopped()
            } else if old(self).generated() >= old(self).n_eval() {
                Some(StopReason::Limit)
            } else {
                Some(StopReason::ContextFull)
            }),
            final(self).n_eval() == old(self).n_eval(),
            final(self).generated() == old(self).generated(),
            final(self).eos() == old(self).eos(),
            final(self).stops() == old(self).stops(),
            final(self).output() == old(self).output(),
            final(self).fed() == old(self).fed(),
    {
        if self.stopped.is_some() {
            return false;
        }
        if self.generated >= self.n_eval {
            self.stopped = Some(StopReason::Limit);
            return false;
        }
        if session.kv_cache_size() >= session.capacity() {
            self.stopped = Some(StopReason::ContextFull);
            return false;
        }
        true
    }

    /// Takes the sampled `token` and its bytes. The end-of-stream token ends the loop;
    /// otherwise the bytes join the output, and where the output then ends with a stop
    /// sequence, however its bytes were split between tokens, that sequence is cut off
    /// and the loop ends. Else returns the text to emit.
    pub fn on_token(&mut self, token: Token, bytes: &Vec<u8>) -> (r: TokenStep)
        requires
            old(self).stopped() is None,
            old(self).output().len() + bytes@.len() <= usize::MAX,
            bytes@.len() <= MAX_CHUNK,
        ensures
            final(self).n_eval() == old(self).n_eval(),
            final(self).generated() == old(self).generated(),
            final(self).eos() == old(self).eos(),
            final(self).stops() == old(self).stops(),
            token == old(self).eos() ==> {
                &&& r is Stop
                &&& final(self).stopped() == Some(StopReason::EndOfStream)
                &&& final(self).output() == old(self).output()
                &&& final(self).fed() == old(self).fed()
            },
            token != old(self).eos() ==> {
                let acc = old(self).output() + bytes@;
                &&& final(self).fed() == old(self).fed() + bytes@
                &&& (exists|i: int| is_first_stop(acc, old(self).stops(), i) && {
                    &&& r is Stop
                    &&& final(self).stopped() == Some(StopReason::StopSequence)
                    &&& final(self).output() == acc.subrange(0, acc.len() - old(self).stops()[i].len())
                }) || (no_stop(acc, old(self).stops()) && {
                    &&& final(self).stopped() is None
                    &&& final(self).output() == acc
                    &&& (r matches TokenStep::Emit(s) && crate::text::utf8_stream_text(final(self).fed())
                        == crate::text::utf8_stream_text(old(self).fed()) + s@)
                })
            },
    {
        if token == self.eos {
            self.stopped = Some(StopReason::EndOfStream);
            return TokenStep::Stop;
        }
        let fragment = self.text.feed(bytes);
        append_bytes(&mut self.output, bytes);
        let ghost acc = self.output@;
        match find_stop(&self.output, &self.stop_sequences) {
            Some(i) => {
                let cut = self.output.len() - self.stop_sequences[i].len();
                self.output.truncate(cut);
                self.stopped = Some(StopReason::StopSequence);
                proof {
                    assert(acc == old(self).output() + bytes@);
                    assert(self.output@ =~= acc.subrange(0, acc.len() - old(self).stops()[i as int].len()));
                    assert(is_first_stop(acc, old(self).stops(), i as int));
                }
                TokenStep::Stop
            },
            None => TokenStep::Emit(fragment),
        }
    }

    /// After the text of `token` was emitted: `keep_going` is what the per-token callback
    /// returned and `aborted` the session's abort flag. Either ends the loop; else the token
    /// joins the uncommitted tail and the returned plan decodes it.
    pub fn after_emit(
        &mut self,
        session: &mut Session,
        token: Token,
        keep_going: bool,
        aborted: bool,
    ) -> (r: Option<KvPlan>)
        requires
            old(session)@.wf(),
            old(self).stopped() is None,
            old(self).generated() < old(self).n_eval(),
            old(session)@.cache().len() < old(session)@.capacity,
        ensures
            final(session)@.wf(),
            final(self).n_eval() == old(self).n_eval(),
            final(self).eos() == old(self).eos(),
            final(self).stops() == old(self).stops(),
            final(self).output() == old(self).output(),
            final(self).fed() == old(self).fed(),
            !keep_going ==> r is None && final(self).stopped() == Some(StopReason::Cancelled)
                && final(session)@ == old(session)@ && final(self).generated() == old(self).generated(),
            keep_going && aborted ==> r is None && final(self).stopped() == Some(StopReason::Aborted)
                && final(session)@ == old(session)@ && final(self).generated() == old(self).generated(),
            keep_going && !aborted ==> (r matches Some(p) && {
                &&& final(self).stopped() is None
                &&& final(self).generated() == old(self).generated() + 1
                &&& final(session)@ == old(session)@.generated(token)
                &&& p.apply(old(session)@.cache()) == final(session)@.cache()
            }),
    {
        if !keep_going {
            self.stopped = Some(StopReason::Cancelled);
            return None;
        }
        if aborted {
            self.stopped = Some(StopReason::Aborted);
            return None;
        }
        let p = session.push_generated(token);
        self.generated = self.generated + 1;
        Some(p)
    }
}

} // verus!
