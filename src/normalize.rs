//! Decoding raw capture bytes into one channel: samples are grouped into
//! frames of one sample per channel, and each frame is averaged.
//!
//! Integer encodings are averaged exactly: each mono sample is given as a
//! frame sum over a common divisor. Float frames are handed out as the bit
//! patterns of their samples, to be averaged in floating point.

use crate::capture::SampleEncoding;
use crate::codec::{decode_pcm16, decode_u32_le, pcm16_centred, u32_le};
use vstd::prelude::*;

verus! {

/// Divisor that maps a signed 16-bit sample into about [-1, 1].
pub const INT16_SCALE: u32 = 32767;

/// Divisor that maps a centred unsigned 16-bit sample into [-1, 1).
pub const UINT16_SCALE: u32 = 32768;

/// The sum of a sequence of integers.
pub open spec fn sum_of(s: Seq<int>) -> int
    decreases s.len(),
{
    if s.len() == 0 {
        0
    } else {
        sum_of(s.drop_last()) + s.last()
    }
}

/// Number of frames of `ch` samples in `n` samples, a last partial frame
/// included.
pub open spec fn frame_count(n: nat, ch: nat) -> nat {
    if ch == 0 {
        0
    } else {
        ((n + ch - 1) / ch as int) as nat
    }
}

/// Frame `k`: the samples from `k * ch` up to `k * ch + ch`, cut at the end
/// of the sequence.
pub open spec fn frame<T>(s: Seq<T>, ch: nat, k: int) -> Seq<T> {
    let start = k * ch;
    let end = if start + ch <= s.len() { start + ch } else { s.len() as int };
    s.subrange(start, end)
}

/// The integer values of a sequence of `i32`.
pub open spec fn ints(s: Seq<i32>) -> Seq<int> {
    s.map_values(|v: i32| v as int)
}

/// The centred 16-bit samples that `raw` holds; a trailing odd byte is
/// not a sample.
pub open spec fn pcm16_samples(raw: Seq<u8>, signed: bool) -> Seq<int> {
    Seq::new(raw.len() / 2, |k: int| pcm16_centred(raw[2 * k], raw[2 * k + 1], signed))
}

/// The 32-bit words that `raw` holds; up to three trailing bytes are not a
/// word.
pub open spec fn words(raw: Seq<u8>) -> Seq<u32> {
    Seq::new(
        raw.len() / 4,
        |k: int| u32_le(raw[4 * k], raw[4 * k + 1], raw[4 * k + 2], raw[4 * k + 3]) as u32,
    )
}

/// The frame sums of a sequence of samples.
pub open spec fn mono_sums(s: Seq<int>, ch: nat) -> Seq<int> {
    Seq::new(frame_count(s.len(), ch), |k: int| sum_of(frame(s, ch, k)))
}

/// The frames of a sequence of samples.
pub open spec fn frames_of<T>(s: Seq<T>, ch: nat) -> Seq<Seq<T>> {
    Seq::new(frame_count(s.len(), ch), |k: int| frame(s, ch, k))
}

/// One mono signal, before the last step into floating point.
pub enum MonoSignal {
    /// Mono sample `k` is `sums[k] / divisor`.
    Scaled { sums: Vec<i64>, divisor: u32 },
    /// Mono sample `k` is the sum of the floats whose bit patterns
    /// `frames[k]` holds, divided by `channels`.
    FloatFrames { frames: Vec<Vec<u32>>, channels: u16 },
}

impl MonoSignal {
    /// Number of mono samples.
    pub open spec fn len_spec(&self) -> nat {
        match self {
            MonoSignal::Scaled { sums, .. } => sums@.len(),
            MonoSignal::FloatFrames { frames, .. } => frames@.len(),
        }
    }

    /// Number of mono samples.
    pub fn len(&self) -> (r: usize)
        ensures
            r as nat == self.len_spec(),
    {
        match self {
            MonoSignal::Scaled { sums, .. } => sums.len(),
            MonoSignal::FloatFrames { frames, .. } => frames.len(),
        }
    }
}

proof fn lemma_frame_count_exit(n: nat, ch: nat, k: nat)
    requires
        ch > 0,
        k * ch >= n,
        k == 0 || (k - 1) * ch < n,
    ensures
        k == frame_count(n, ch),
{
    assert(k == (n + ch - 1) / ch as int) by (nonlinear_arith)
        requires
            ch > 0,
            k * ch >= n,
            k == 0 || (k - 1) * ch < n,
    {
        if k == 0 {
            assert(n == 0);
        } else {
            assert((k - 1) * ch == k * ch - ch);
            assert(k * ch <= n + ch - 1);
            assert(n + ch - 1 < (k + 1) * ch);
        }
    }
}

proof fn lemma_sum_step(s: Seq<int>, a: int, j: int)
    requires
        0 <= a <= j < s.len(),
    ensures
        sum_of(s.subrange(a, j + 1)) == sum_of(s.subrange(a, j)) + s[j],
{
    assert(s.subrange(a, j + 1).drop_last() =~= s.subrange(a, j));
}

/// Sums each frame of `channels` centred 16-bit samples; a last partial
/// frame is summed as it is.
pub fn frame_sums(samples: &Vec<i32>, channels: u16) -> (r: Vec<i64>)
    requires
        channels > 0,
        forall|i: int| 0 <= i < samples@.len() ==> -32768 <= #[trigger] samples@[i] <= 32767,
    ensures
        r@.len() == frame_count(samples@.len(), channels as nat),
        forall|k: int|
            0 <= k < r@.len() ==> #[trigger] r@[k] as int == sum_of(
                frame(ints(samples@), channels as nat, k),
            ),
{
    let ghost s = ints(samples@);
    let n: usize = samples.len();
    let ch: usize = channels as usize;
    let mut r: Vec<i64> = Vec::new();
    let mut start: usize = 0;
    assert(r@.len() * ch == 0);
    while start < n
        invariant
            n == samples@.len(),
            s == ints(samples@),
            ch == channels as usize,
            ch > 0,
            start <= n,
            start < n ==> start == r@.len() * ch,
            r@.len() * ch >= start,
            r@.len() == 0 || (r@.len() - 1) * ch < n,
            forall|i: int| 0 <= i < samples@.len() ==> -32768 <= #[trigger] samples@[i] <= 32767,
            forall|k: int|
                0 <= k < r@.len() ==> #[trigger] r@[k] as int == sum_of(frame(s, ch as nat, k)),
        decreases n - start,
    {
        let end: usize = if n - start < ch { n } else { start + ch };
        let mut acc: i64 = 0;
        let mut j: usize = start;
        while j < end
            invariant
                start <= j <= end <= n,
                end - start <= ch,
                ch <= 65535,
                n == samples@.len(),
                s == ints(samples@),
                forall|i: int| 0 <= i < samples@.len() ==> -32768 <= #[trigger] samples@[i] <= 32767,
                acc == sum_of(s.subrange(start as int, j as int)),
                -32768 * (j - start) <= acc <= 32767 * (j - start),
            decreases end - j,
        {
            proof {
                lemma_sum_step(s, start as int, j as int);
            }
            acc = acc + samples[j] as i64;
            j = j + 1;
        }
        proof {
            assert(frame(s, ch as nat, r@.len() as int) == s.subrange(start as int, end as int));
        }
        r.push(acc);
        proof {
            assert(start == (r@.len() - 1) * ch) by (nonlinear_arith)
                requires
                    start == (r@.len() - 1) * ch,
            ;
            assert(r@.len() * ch == (r@.len() - 1) * ch + ch) by (nonlinear_arith);
        }
        start = end;
    }
    proof {
        lemma_frame_count_exit(n as nat, ch as nat, r@.len());
    }
    r
}

/// Splits samples into frames of `channels`; a last partial frame is kept
/// as it is.
pub fn group_frames(samples: &Vec<u32>, channels: u16) -> (r: Vec<Vec<u32>>)
    requires
        channels > 0,
    ensures
        r@.len() == frame_count(samples@.len(), channels as nat),
        forall|k: int| 0 <= k < r@.len() ==> #[trigger] r@[k]@ == frame(samples@, channels as nat, k),
{
    let n: usize = samples.len();
    let ch: usize = channels as usize;
    let mut r: Vec<Vec<u32>> = Vec::new();
    let mut start: usize = 0;
    assert(r@.len() * ch == 0);
    while start < n
        invariant
            n == samples@.len(),
            ch == channels as usize,
            ch > 0,
            start <= n,
            start < n ==> start == r@.len() * ch,
            r@.len() * ch >= start,
            r@.len() == 0 || (r@.len() - 1) * ch < n,
            forall|k: int| 0 <= k < r@.len() ==> #[trigger] r@[k]@ == frame(samples@, ch as nat, k),
        decreases n - start,
    {
        let end: usize = if n - start < ch { n } else { start + ch };
        let mut f: Vec<u32> = Vec::with_capacity(end - start);
        let mut j: usize = start;
        while j < end
            invariant
                start <= j <= end <= n,
                n == samples@.len(),
                f@ == samples@.subrange(start as int, j as int),
            decreases end - j,
        {
            f.push(samples[j]);
            j = j + 1;
            assert(f@ =~= samples@.subrange(start as int, j as int));
        }
        proof {
            assert(frame(samples@, ch as nat, r@.len() as int) == samples@.subrange(
                start as int,
                end as int,
            ));
        }
        r.push(f);
        proof {
            assert(r@.len() * ch == (r@.len() - 1) * ch + ch) by (nonlinear_arith);
        }
        start = end;
    }
    proof {
        lemma_frame_count_exit(n as nat, ch as nat, r@.len());
    }
    r
}

/// Whether `m` is `raw`, in `encoding` with `channels` channels, downmixed
/// to one channel.
pub open spec fn is_mono_of(m: MonoSignal, raw: Seq<u8>, channels: u16, encoding: SampleEncoding) -> bool {
    match encoding {
        SampleEncoding::Int16 => m matches MonoSignal::Scaled { sums, divisor }
            && divisor == INT16_SCALE * channels && sums@.map_values(|v: i64| v as int)
            == mono_sums(pcm16_samples(raw, true), channels as nat),
        SampleEncoding::UInt16 => m matches MonoSignal::Scaled { sums, divisor }
            && divisor == UINT16_SCALE * channels && sums@.map_values(|v: i64| v as int)
            == mono_sums(pcm16_samples(raw, false), channels as nat),
        SampleEncoding::Float32 => m matches MonoSignal::FloatFrames { frames, channels: c }
            && c == channels && frames@.map_values(|f: Vec<u32>| f@) == frames_of(
            words(raw),
            channels as nat,
        ),
    }
}

/// Decodes `raw` in `encoding` and downmixes it to one channel by averaging
/// each frame of `channels` samples. Bytes at the end that do not make a
/// whole sample are ignored; a last partial frame is still divided by
/// `channels`.
pub fn normalize(raw: &[u8], channels: u16, encoding: SampleEncoding) -> (r: MonoSignal)
    requires
        channels > 0,
    ensures
        is_mono_of(r, raw@, channels, encoding),
        r.len_spec() == frame_count(raw@.len() / encoding.width_spec(), channels as nat),
{
    match encoding {
        SampleEncoding::Float32 => {
            let w = decode_u32_le(raw);
            proof {
                assert forall|k: int| 0 <= k < w@.len() implies w@[k] == #[trigger] words(raw@)[k] by {
                    let v = u32_le(raw@[4 * k], raw@[4 * k + 1], raw@[4 * k + 2], raw@[4 * k + 3]);
                    assert(0 <= v <= 0xffff_ffff);
                }
                assert(w@ =~= words(raw@));
            }
            let frames = group_frames(&w, channels);
            proof {
                assert(frames@.map_values(|f: Vec<u32>| f@) =~= frames_of(
                    words(raw@),
                    channels as nat,
                ));
            }
            MonoSignal::FloatFrames { frames, channels }
        },
        _ => {
            let signed = encoding == SampleEncoding::Int16;
            let samples = decode_pcm16(raw, signed);
            proof {
                assert(ints(samples@) =~= pcm16_samples(raw@, signed));
                assert forall|i: int| 0 <= i < samples@.len() implies -32768 <= #[trigger] samples@[i]
                    <= 32767 by {
                    assert(ints(samples@)[i] == samples@[i] as int);
                }
            }
            let sums = frame_sums(&samples, channels);
            proof {
                assert(sums@.map_values(|v: i64| v as int) =~= mono_sums(
                    pcm16_samples(raw@, signed),
                    channels as nat,
                ));
            }
            let scale: u32 = if signed { INT16_SCALE } else { UINT16_SCALE };
            MonoSignal::Scaled { sums, divisor: scale * channels as u32 }
        },
    }
}

/// With one channel, downmixing changes nothing: the mono signal is the
/// decoded samples themselves, and each float frame holds one sample.
pub proof fn lemma_single_channel_identity(m: MonoSignal, raw: Seq<u8>, encoding: SampleEncoding)
    requires
        is_mono_of(m, raw, 1, encoding),
    ensures
        encoding == SampleEncoding::Int16 ==> (m matches MonoSignal::Scaled { sums, .. } && sums@.map_values(
            |v: i64| v as int,
        ) == pcm16_samples(raw, true)),
        encoding == SampleEncoding::UInt16 ==> (m matches MonoSignal::Scaled { sums, .. } && sums@.map_values(
            |v: i64| v as int,
        ) == pcm16_samples(raw, false)),
        encoding == SampleEncoding::Float32 ==> (m matches MonoSignal::FloatFrames { frames, .. }
            && frames@.map_values(|f: Vec<u32>| f@) == words(raw).map_values(|x: u32| seq![x])),
{
    lemma_one_channel_sums(pcm16_samples(raw, true));
    lemma_one_channel_sums(pcm16_samples(raw, false));
    lemma_one_channel_frames(words(raw));
}

proof fn lemma_one_channel_sums(s: Seq<int>)
    ensures
        mono_sums(s, 1) == s,
{
    assert forall|k: int| 0 <= k < s.len() implies #[trigger] mono_sums(s, 1)[k] == s[k] by {
        assert(k * 1 == k);
        let f = frame(s, 1, k);
        assert(f =~= seq![s[k]]);
        assert(f.drop_last() =~= Seq::<int>::empty());
        assert(sum_of(f) == sum_of(f.drop_last()) + f.last());
    }
    assert(frame_count(s.len(), 1) == s.len());
    assert(mono_sums(s, 1) =~= s);
}

proof fn lemma_one_channel_frames<T>(t: Seq<T>)
    ensures
        frames_of(t, 1) == t.map_values(|x: T| seq![x]),
{
    assert forall|k: int| 0 <= k < t.len() implies #[trigger] frames_of(t, 1)[k] == seq![t[k]] by {
        assert(k * 1 == k);
        assert(frame(t, 1, k) =~= seq![t[k]]);
    }
    assert(frame_count(t.len(), 1) == t.len());
    assert(frames_of(t, 1) =~= t.map_values(|x: T| seq![x]));
}

/// A byte after the last whole 16-bit sample is no sample: appending one
/// to a buffer of whole samples leaves the decoded samples as they were.
pub proof fn lemma_odd_tail_ignored(raw: Seq<u8>, tail: u8, signed: bool)
    requires
        raw.len() % 2 == 0,
    ensures
        pcm16_samples(raw.push(tail), signed) == pcm16_samples(raw, signed),
{
    assert(raw.push(tail).len() / 2 == raw.len() / 2);
    assert(pcm16_samples(raw.push(tail), signed) =~= pcm16_samples(raw, signed));
}

} // verus!
