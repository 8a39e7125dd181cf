//! Capture, then normalize, then resample: the conditioning a recording
//! goes through before it reaches the recognizer.

use crate::capture::AudioRecording;
use crate::normalize::{frame_count, is_mono_of, normalize, MonoSignal};
use crate::resample::{is_plan, out_len, resample_plan, Resampling};
use vstd::prelude::*;

verus! {

/// The sample rate that the recognizer expects.
pub const TARGET_SAMPLE_RATE: u32 = 16000;

/// A recording downmixed to one channel, and the plan that brings it to
/// the recognizer's rate.
pub struct Conditioned {
    pub mono: MonoSignal,
    pub plan: Resampling,
}

/// Number of mono samples that a recording gives.
pub open spec fn mono_len(rec: &AudioRecording) -> nat {
    frame_count(rec.data@.len() / rec.sample_format.width_spec(), rec.channels as nat)
}

/// Whether a recording's conditioned form fits in memory.
pub open spec fn fits(rec: &AudioRecording) -> bool {
    out_len(mono_len(rec), rec.sample_rate as nat, TARGET_SAMPLE_RATE as nat) <= usize::MAX
}

/// Downmixes a recording and plans its resampling to `TARGET_SAMPLE_RATE`.
pub fn condition(rec: &AudioRecording) -> (r: Conditioned)
    requires
        rec.channels > 0,
        fits(rec),
    ensures
        is_mono_of(r.mono, rec.data@, rec.channels, rec.sample_format),
        r.mono.len_spec() == mono_len(rec),
        is_plan(r.plan, mono_len(rec), rec.sample_rate as nat, TARGET_SAMPLE_RATE as nat),
{
    let mono = normalize(rec.data.as_slice(), rec.channels, rec.sample_format);
    let plan = resample_plan(mono.len(), rec.sample_rate, TARGET_SAMPLE_RATE);
    Conditioned { mono, plan }
}

/// Whether `condition` can take a recording: it has a channel, and its
/// output length fits in memory.
pub fn can_condition(rec: &AudioRecording) -> (r: bool)
    ensures
        r == (rec.channels > 0 && fits(rec)),
{
    if rec.channels == 0 {
        return false;
    }
    let width: usize = rec.sample_format.width();
    let samples: usize = rec.data.len() / width;
    let ch: usize = rec.channels as usize;
    assert(samples / ch <= samples && samples < 0xffff_ffff_ffff_ffff) by (nonlinear_arith)
        requires
            width >= 2,
            ch >= 1,
            rec.data@.len() <= 0xffff_ffff_ffff_ffff,
            samples == rec.data@.len() as int / width as int,
    ;
    let frames: usize = samples / ch + if samples % ch == 0 { 0 } else { 1 };
    assert(frames as nat == frame_count(samples as nat, ch as nat)) by (nonlinear_arith)
        requires
            ch > 0,
            frames == samples / ch + if samples % ch == 0 { 0int } else { 1int },
    {
        let q = samples / ch;
        let m = samples % ch;
        assert(samples == q * ch + m);
        if m == 0 {
            assert((samples + ch - 1) / (ch as int) == q);
        } else {
            assert((samples + ch - 1) / (ch as int) == q + 1);
        }
    }
    if rec.sample_rate == 0 {
        return true;
    }
    let src: u128 = rec.sample_rate as u128;
    assert(frames as u128 * 16000 <= 0xffff_ffff_ffff_ffff * 16000) by (nonlinear_arith)
        requires
            frames <= 0xffff_ffff_ffff_ffff,
    ;
    let total: u128 = (frames as u128 * 16000 + src - 1) / src;
    total <= usize::MAX as u128
}

} // verus!
