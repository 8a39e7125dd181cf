//! Linear-interpolation resampling, given as a plan over sample indices.
//!
//! With `ratio = dst / src`, output sample `n` lies at source position
//! `n / ratio = n * src / dst`. Its value is
//! `input[i0] * (1 - frac) + input[i1] * frac`, where `i0` is the whole part
//! of that position, `frac = frac_num / frac_den` its fractional part, and
//! `i1` the next index, clamped to the last input sample. The plan holds
//! these indices and weights exactly; applying it to the samples is the one
//! step left to floating point.

use vstd::prelude::*;

verus! {

/// The two source samples that one output sample blends, and the weight
/// `frac_num / frac_den` of the second.
#[derive(Clone, Copy, Debug, PartialEq, Eq, Structural)]
pub struct ResampleStep {
    pub i0: usize,
    pub i1: usize,
    pub frac_num: u32,
    pub frac_den: u32,
}

/// How a signal is carried from one sample rate to another.
pub enum Resampling {
    /// The output is empty.
    Empty,
    /// The output is the input, copied as it is.
    Unchanged,
    /// Output sample `n` is the blend that step `n` describes.
    Interpolate(Vec<ResampleStep>),
}

/// Number of output samples: `ceil(len * dst / src)`.
pub open spec fn out_len(len: nat, src: nat, dst: nat) -> nat {
    if src == 0 {
        0
    } else {
        ((len * dst + src - 1) as int / src as int) as nat
    }
}

/// The step for output sample `n` of an input of `len` samples.
pub open spec fn step_at(n: nat, len: nat, src: nat, dst: nat) -> ResampleStep {
    let i0 = (n * src) as int / dst as int;
    ResampleStep {
        i0: i0 as usize,
        i1: (if i0 + 1 < len { i0 + 1 } else { len - 1 }) as usize,
        frac_num: ((n * src) as int % dst as int) as u32,
        frac_den: dst as u32,
    }
}

/// Whether `r` is the plan for an input of `len` samples from rate `src`
/// to rate `dst`.
pub open spec fn is_plan(r: Resampling, len: nat, src: nat, dst: nat) -> bool {
    if src == 0 || dst == 0 || len == 0 {
        r is Empty
    } else if src == dst {
        r is Unchanged
    } else {
        r matches Resampling::Interpolate(steps) && steps@.len() == out_len(len, src, dst) && (
        forall|n: int| 0 <= n < steps@.len() ==> #[trigger] steps@[n] == step_at(n as nat, len, src, dst))
    }
}

proof fn lemma_step_in_range(n: nat, len: nat, src: nat, dst: nat)
    requires
        src > 0,
        dst > 0,
        n < out_len(len, src, dst),
    ensures
        n * src < len * dst,
        (n * src) as int / dst as int <= len - 1,
{
    let (ni, li, si, di) = (n as int, len as int, src as int, dst as int);
    assert(ni * si < li * di) by (nonlinear_arith)
        requires
            si > 0,
            ni >= 0,
            li >= 0,
            di >= 0,
            ni < (li * di + si - 1) / si,
    {
        assert(ni + 1 <= (li * di + si - 1) / si);
        assert((ni + 1) * si <= ((li * di + si - 1) / si) * si);
        assert(((li * di + si - 1) / si) * si <= li * di + si - 1);
        assert((ni + 1) * si == ni * si + si);
    }
    assert((ni * si) / di <= li - 1) by (nonlinear_arith)
        requires
            di > 0,
            ni * si >= 0,
            ni * si < li * di,
    {
        assert((ni * si) / di * di <= ni * si);
        if (ni * si) / di >= li {
            assert((ni * si) / di * di >= li * di);
        }
    }
}

/// The plan that resamples `input_len` samples from `src_sr` to `dst_sr`.
/// A zero rate or an empty input gives an empty output; equal rates give
/// the input unchanged; otherwise output sample `n` sits at source position
/// `n * src_sr / dst_sr`, and there are `ceil(input_len * dst_sr / src_sr)`
/// of them.
pub fn resample_plan(input_len: usize, src_sr: u32, dst_sr: u32) -> (r: Resampling)
    requires
        out_len(input_len as nat, src_sr as nat, dst_sr as nat) <= usize::MAX,
    ensures
        is_plan(r, input_len as nat, src_sr as nat, dst_sr as nat),
{
    if src_sr == 0 || dst_sr == 0 || input_len == 0 {
        return Resampling::Empty;
    }
    if src_sr == dst_sr {
        return Resampling::Unchanged;
    }
    let ghost len = input_len as nat;
    let ghost src = src_sr as nat;
    let ghost dst = dst_sr as nat;
    let src_w: u128 = src_sr as u128;
    let dst_w: u128 = dst_sr as u128;
    assert(input_len as u128 * dst_w <= 0xffff_ffff_ffff_ffff * 0xffff_ffff) by (nonlinear_arith)
        requires
            input_len <= 0xffff_ffff_ffff_ffff,
            dst_w <= 0xffff_ffff,
    ;
    let total: u128 = (input_len as u128 * dst_w + src_w - 1) / src_w;
    let count: usize = total as usize;
    let mut steps: Vec<ResampleStep> = Vec::with_capacity(count);
    let mut n: usize = 0;
    while n < count
        invariant
            count as nat == out_len(len, src, dst),
            len == input_len as nat,
            src == src_sr as nat,
            dst == dst_sr as nat,
            src > 0,
            dst > 0,
            src_w == src_sr as u128,
            dst_w == dst_sr as u128,
            n <= count,
            steps@.len() == n,
            forall|j: int| 0 <= j < n ==> #[trigger] steps@[j] == step_at(j as nat, len, src, dst),
        decreases count - n,
    {
        proof {
            lemma_step_in_range(n as nat, len, src, dst);
        }
        assert(n as u128 * src_w <= 0xffff_ffff_ffff_ffff * 0xffff_ffff) by (nonlinear_arith)
            requires
                n <= 0xffff_ffff_ffff_ffff,
                src_w <= 0xffff_ffff,
        ;
        let pos: u128 = n as u128 * src_w;
        let i0: usize = (pos / dst_w) as usize;
        let i1: usize = if i0 + 1 < input_len { i0 + 1 } else { input_len - 1 };
        let frac: u32 = (pos % dst_w) as u32;
        steps.push(ResampleStep { i0, i1, frac_num: frac, frac_den: dst_sr });
        n = n + 1;
    }
    Resampling::Interpolate(steps)
}

/// Equal, nonzero rates leave a non-empty signal unchanged.
pub proof fn lemma_same_rate_unchanged(r: Resampling, len: nat, rate: nat)
    requires
        is_plan(r, len, rate, rate),
        rate > 0,
        len > 0,
    ensures
        r is Unchanged,
{
}

/// A zero rate on either side, or an empty signal, gives an empty output.
pub proof fn lemma_degenerate_empty(r: Resampling, len: nat, src: nat, dst: nat)
    requires
        is_plan(r, len, src, dst),
        src == 0 || dst == 0 || len == 0,
    ensures
        r is Empty,
{
}

/// Between distinct nonzero rates the output has `ceil(len * dst / src)`
/// samples; doubling the rate doubles the length.
pub proof fn lemma_output_length(r: Resampling, len: nat, src: nat, dst: nat)
    requires
        is_plan(r, len, src, dst),
        src > 0,
        dst > 0,
        src != dst,
        len > 0,
    ensures
        r matches Resampling::Interpolate(steps) && steps@.len() == out_len(len, src, dst),
        dst == 2 * src ==> (r matches Resampling::Interpolate(steps) && steps@.len() == 2 * len),
{
    if dst == 2 * src {
        let (li, si) = (len as int, src as int);
        assert((li * (2 * si) + si - 1) / si == 2 * li) by (nonlinear_arith)
            requires
                si > 0,
                li >= 0,
        {
            assert(li * (2 * si) + si - 1 == (2 * li) * si + (si - 1));
        }
    }
}

/// When the rate doubles, even outputs land on input samples and odd
/// outputs halfway between a sample and the next (the last one clamped).
pub proof fn lemma_doubling_midpoints(r: Resampling, len: nat, src: nat, k: nat)
    requires
        is_plan(r, len, src, 2 * src),
        src > 0,
        len > 0,
        k < len,
    ensures
        r matches Resampling::Interpolate(steps) && steps@[2 * k as int] == (ResampleStep {
            i0: k as usize,
            i1: (if k + 1 < len { k as int + 1 } else { len as int - 1 }) as usize,
            frac_num: 0,
            frac_den: (2 * src) as u32,
        }) && steps@[2 * k as int + 1] == (ResampleStep {
            i0: k as usize,
            i1: (if k + 1 < len { k as int + 1 } else { len as int - 1 }) as usize,
            frac_num: src as u32,
            frac_den: (2 * src) as u32,
        }),
{
    lemma_output_length(r, len, src, 2 * src);
    let (ki, si) = (k as int, src as int);
    assert((2 * ki) * si / (2 * si) == ki && (2 * ki) * si % (2 * si) == 0) by (nonlinear_arith)
        requires
            si > 0,
            ki >= 0,
    {
        assert((2 * ki) * si == ki * (2 * si));
    }
    assert((2 * ki + 1) * si / (2 * si) == ki && (2 * ki + 1) * si % (2 * si) == si) by (nonlinear_arith)
        requires
            si > 0,
            ki >= 0,
    {
        assert((2 * ki + 1) * si == ki * (2 * si) + si);
    }
}

} // verus!
