use vstd::prelude::*;

use crate::gpt::infer::{Mirostat, MirostatVersion, Options};

verus! {

/// One step of the sampling pipeline, applied to the candidates at the head.
/// Real-valued parameters are `f32` bit patterns.
#[derive(Debug, Clone, Copy, PartialEq, Eq, Structural)]
pub enum SamplerStep {
    /// Constrain the candidates by the grammar.
    Grammar,
    /// Softmax, then take the most likely candidate.
    SoftmaxTop,
    /// Take the most likely candidate.
    Greedy,
    TopK(i32),
    TailFree(u32),
    Typical(u32),
    TopP(u32),
    MinP(u32),
    Temp(u32),
    MirostatV1 { tau: Option<u32>, eta: Option<u32> },
    MirostatV2 { tau: Option<u32>, eta: Option<u32> },
    /// Draw a token from the remaining distribution.
    Sample,
}

/// How a temperature compares with zero, as `f32` comparison does it.
#[derive(Debug, Clone, Copy, PartialEq, Eq, Structural)]
pub enum TempClass {
    Negative,
    Zero,
    /// Positive, or not a number.
    Other,
}

pub open spec fn is_nan_bits(b: u32) -> bool {
    (b >> 23u32) & 0xffu32 == 0xffu32 && b & 0x7f_ffffu32 != 0
}

pub open spec fn is_zero_bits(b: u32) -> bool {
    b & 0x7fff_ffffu32 == 0
}

/// The class of a temperature given as bits; an absent temperature counts as 1.0.
pub open spec fn temp_class_spec(t: Option<u32>) -> TempClass {
    match t {
        None => TempClass::Other,
        Some(b) => if is_zero_bits(b) {
            TempClass::Zero
        } else if is_nan_bits(b) {
            TempClass::Other
        } else if b >> 31u32 == 1 {
            TempClass::Negative
        } else {
            TempClass::Other
        },
    }
}

pub fn temp_class(t: Option<u32>) -> (r: TempClass)
    ensures
        r == temp_class_spec(t),
{
    match t {
        None => TempClass::Other,
        Some(b) => if b & 0x7fff_ffff == 0 {
            TempClass::Zero
        } else if (b >> 23) & 0xff == 0xff && b & 0x7f_ffff != 0 {
            TempClass::Other
        } else if b >> 31 == 1 {
            TempClass::Negative
        } else {
            TempClass::Other
        },
    }
}

pub open spec fn mirostat_step(m: Mirostat) -> SamplerStep {
    match m.version {
        MirostatVersion::V1 => SamplerStep::MirostatV1 { tau: m.tau, eta: m.eta },
        MirostatVersion::V2 => SamplerStep::MirostatV2 { tau: m.tau, eta: m.eta },
    }
}

pub open spec fn top_k_part(o: &Options) -> Seq<SamplerStep> {
    match o.top_k {
        Some(v) => seq![SamplerStep::TopK(v)],
        None => Seq::empty(),
    }
}

fn push_top_k(r: &mut Vec<SamplerStep>, o: &Options)
    ensures
        final(r)@ == old(r)@ + top_k_part(o),
{
    if let Some(v) = o.top_k {
        r.push(SamplerStep::TopK(v));
        assert(final(r)@ =~= old(r)@ + top_k_part(o));
    } else {
        assert(r@ =~= old(r)@ + top_k_part(o));
    }
}

pub open spec fn tfs_z_part(o: &Options) -> Seq<SamplerStep> {
    match o.tfs_z {
        Some(v) => seq![SamplerStep::TailFree(v)],
        None => Seq::empty(),
    }
}

fn push_tfs_z(r: &mut Vec<SamplerStep>, o: &Options)
    ensures
        final(r)@ == old(r)@ + tfs_z_part(o),
{
    if let Some(v) = o.tfs_z {
        r.push(SamplerStep::TailFree(v));
        assert(final(r)@ =~= old(r)@ + tfs_z_part(o));
    } else {
        assert(r@ =~= old(r)@ + tfs_z_part(o));
    }
}

pub open spec fn typical_p_part(o: &Options) -> Seq<SamplerStep> {
    match o.typical_p {
        Some(v) => seq![SamplerStep::Typical(v)],
        None => Seq::empty(),
    }
}

fn push_typical_p(r: &mut Vec<SamplerStep>, o: &Options)
    ensures
        final(r)@ == old(r)@ + typical_p_part(o),
{
    if let Some(v) = o.typical_p {
        r.push(SamplerStep::Typical(v));
        assert(final(r)@ =~= old(r)@ + typical_p_part(o));
    } else {
        assert(r@ =~= old(r)@ + typical_p_part(o));
    }
}

pub open spec fn top_p_part(o: &Options) -> Seq<SamplerStep> {
    match o.top_p {
        Some(v) => seq![SamplerStep::TopP(v)],
        None => Seq::empty(),
    }
}

fn push_top_p(r: &mut Vec<SamplerStep>, o: &Options)
    ensures
        final(r)@ == old(r)@ + top_p_part(o),
{
    if let Some(v) = o.top_p {
        r.push(SamplerStep::TopP(v));
        assert(final(r)@ =~= old(r)@ + top_p_part(o));
    } else {
        assert(r@ =~= old(r)@ + top_p_part(o));
    }
}

pub open spec fn min_p_part(o: &Options) -> Seq<SamplerStep> {
    match o.min_p {
        Some(v) => seq![SamplerStep::MinP(v)],
        None => Seq::empty(),
    }
}

fn push_min_p(r: &mut Vec<SamplerStep>, o: &Options)
    ensures
        final(r)@ == old(r)@ + min_p_part(o),
{
    if let Some(v) = o.min_p {
        r.push(SamplerStep::MinP(v));
        assert(final(r)@ =~= old(r)@ + min_p_part(o));
    } else {
        assert(r@ =~= old(r)@ + min_p_part(o));
    }
}

pub open spec fn temp_part(o: &Options) -> Seq<SamplerStep> {
    match o.temp {
        Some(v) => seq![SamplerStep::Temp(v)],
        None => Seq::empty(),
    }
}

fn push_temp(r: &mut Vec<SamplerStep>, o: &Options)
    ensures
        final(r)@ == old(r)@ + temp_part(o),
{
    if let Some(v) = o.temp {
        r.push(SamplerStep::Temp(v));
        assert(final(r)@ =~= old(r)@ + temp_part(o));
    } else {
        assert(r@ =~= old(r)@ + temp_part(o));
    }
}

pub open spec fn mirostat_part(o: &Options) -> Seq<SamplerStep> {
    match o.mirostat {
        Some(m) => seq![mirostat_step(m)],
        None => Seq::empty(),
    }
}

fn push_mirostat(r: &mut Vec<SamplerStep>, o: &Options)
    ensures
        final(r)@ == old(r)@ + mirostat_part(o),
{
    if let Some(m) = o.mirostat {
        match m.version {
            MirostatVersion::V1 => r.push(SamplerStep::MirostatV1 { tau: m.tau, eta: m.eta }),
            MirostatVersion::V2 => r.push(SamplerStep::MirostatV2 { tau: m.tau, eta: m.eta }),
        }
        assert(final(r)@ =~= old(r)@ + mirostat_part(o));
    } else {
        assert(r@ =~= old(r)@ + mirostat_part(o));
    }
}

/// The filters of a positive temperature, in their fixed order.
pub open spec fn filters_spec(o: &Options) -> Seq<SamplerStep> {
    top_k_part(o) + tfs_z_part(o) + typical_p_part(o) + top_p_part(o) + min_p_part(o) + temp_part(o)
        + mirostat_part(o)
}

/// The sampling pipeline: the grammar first where there is one; then softmax and the top
/// candidate for a negative temperature, the greedy choice for a zero one, and otherwise
/// the filters that are set, in their fixed order, and a draw.
pub open spec fn chain_spec(o: &Options) -> Seq<SamplerStep> {
    let g = if o.grammar is Some { seq![SamplerStep::Grammar] } else { Seq::empty() };
    g + match temp_class_spec(o.temp) {
        TempClass::Negative => seq![SamplerStep::SoftmaxTop],
        TempClass::Zero => seq![SamplerStep::Greedy],
        TempClass::Other => filters_spec(o).push(SamplerStep::Sample),
    }
}

/// Builds the sampling pipeline of `options`.
pub fn sampler_chain(options: &Options) -> (r: Vec<SamplerStep>)
    ensures
        r@ == chain_spec(options),
{
    let mut r: Vec<SamplerStep> = Vec::new();
    if options.grammar.is_some() {
        r.push(SamplerStep::Grammar);
    }
    let ghost g = r@;
    match temp_class(options.temp) {
        TempClass::Negative => {
            r.push(SamplerStep::SoftmaxTop);
        },
        TempClass::Zero => {
            r.push(SamplerStep::Greedy);
        },
        TempClass::Other => {
            push_top_k(&mut r, options);
            push_tfs_z(&mut r, options);
            push_typical_p(&mut r, options);
            push_top_p(&mut r, options);
            push_min_p(&mut r, options);
            push_temp(&mut r, options);
            push_mirostat(&mut r, options);
            proof {
                assert(r@ =~= g + filters_spec(options));
            }
            r.push(SamplerStep::Sample);
        },
    }
    proof {
        assert(r@ =~= chain_spec(options));
    }
    r
}

} // verus!
