//! Little-endian sample codecs for the 16-bit and 32-bit sample widths.

use vstd::prelude::*;

verus! {

/// The unsigned value of two little-endian bytes.
pub open spec fn u16_le(lo: u8, hi: u8) -> int {
    lo as int + 256 * hi as int
}

/// The two's-complement value of two little-endian bytes.
pub open spec fn i16_le(lo: u8, hi: u8) -> int {
    if hi < 128 {
        u16_le(lo, hi)
    } else {
        u16_le(lo, hi) - 65536
    }
}

/// The unsigned value of four little-endian bytes.
pub open spec fn u32_le(b0: u8, b1: u8, b2: u8, b3: u8) -> int {
    u16_le(b0, b1) + 65536 * u16_le(b2, b3)
}

/// The centred value of a 16-bit sample: signed samples as they are,
/// unsigned samples shifted down by the midpoint 32768.
pub open spec fn pcm16_centred(lo: u8, hi: u8, signed: bool) -> int {
    if signed {
        i16_le(lo, hi)
    } else {
        u16_le(lo, hi) - 32768
    }
}

/// Little-endian bytes of one signed 16-bit sample.
pub open spec fn i16_bytes(v: i16) -> Seq<u8> {
    let u: int = if v < 0 { v + 65536 } else { v as int };
    seq![(u % 256) as u8, (u / 256) as u8]
}

/// Little-endian bytes of one unsigned 16-bit sample.
pub open spec fn u16_bytes(v: u16) -> Seq<u8> {
    seq![(v % 256) as u8, (v / 256) as u8]
}

/// Little-endian bytes of one 32-bit word.
pub open spec fn u32_bytes(v: u32) -> Seq<u8> {
    seq![(v % 256) as u8, ((v / 256) % 256) as u8, ((v / 65536) % 256) as u8, (v / 16777216) as u8]
}

/// Signed 16-bit samples, each as two little-endian bytes, in order.
pub open spec fn i16s_bytes(s: Seq<i16>) -> Seq<u8>
    decreases s.len(),
{
    if s.len() == 0 {
        seq![]
    } else {
        i16s_bytes(s.drop_last()) + i16_bytes(s.last())
    }
}

/// Unsigned 16-bit samples, each as two little-endian bytes, in order.
pub open spec fn u16s_bytes(s: Seq<u16>) -> Seq<u8>
    decreases s.len(),
{
    if s.len() == 0 {
        seq![]
    } else {
        u16s_bytes(s.drop_last()) + u16_bytes(s.last())
    }
}

/// 32-bit words, each as four little-endian bytes, in order.
pub open spec fn u32s_bytes(s: Seq<u32>) -> Seq<u8>
    decreases s.len(),
{
    if s.len() == 0 {
        seq![]
    } else {
        u32s_bytes(s.drop_last()) + u32_bytes(s.last())
    }
}

/// Decoding the two bytes of a signed sample gives the sample back.
pub proof fn lemma_i16_round_trip(v: i16)
    ensures
        i16_le(i16_bytes(v)[0], i16_bytes(v)[1]) == v as int,
        pcm16_centred(i16_bytes(v)[0], i16_bytes(v)[1], true) == v as int,
{
}

/// Decoding the two bytes of an unsigned sample gives the sample back.
pub proof fn lemma_u16_round_trip(v: u16)
    ensures
        u16_le(u16_bytes(v)[0], u16_bytes(v)[1]) == v as int,
        pcm16_centred(u16_bytes(v)[0], u16_bytes(v)[1], false) == v as int - 32768,
{
}

/// Decoding the four bytes of a word gives the word back.
pub proof fn lemma_u32_round_trip(v: u32)
    ensures
        u32_le(u32_bytes(v)[0], u32_bytes(v)[1], u32_bytes(v)[2], u32_bytes(v)[3]) == v as int,
{
}

/// Appends the little-endian bytes of a signed sample.
pub fn push_i16_le(out: &mut Vec<u8>, v: i16)
    ensures
        final(out)@ == old(out)@ + i16_bytes(v),
{
    let u: u32 = if v < 0 { (v as i32 + 65536) as u32 } else { v as u32 };
    out.push((u % 256) as u8);
    out.push((u / 256) as u8);
    assert(final(out)@ =~= old(out)@ + i16_bytes(v));
}

/// Appends the little-endian bytes of an unsigned sample.
pub fn push_u16_le(out: &mut Vec<u8>, v: u16)
    ensures
        final(out)@ == old(out)@ + u16_bytes(v),
{
    out.push((v % 256) as u8);
    out.push((v / 256) as u8);
    assert(final(out)@ =~= old(out)@ + u16_bytes(v));
}

/// Appends the little-endian bytes of a 32-bit word.
pub fn push_u32_le(out: &mut Vec<u8>, v: u32)
    ensures
        final(out)@ == old(out)@ + u32_bytes(v),
{
    out.push((v % 256) as u8);
    out.push(((v / 256) % 256) as u8);
    out.push(((v / 65536) % 256) as u8);
    out.push((v / 16777216) as u8);
    assert(final(out)@ =~= old(out)@ + u32_bytes(v));
}

/// Decodes consecutive 16-bit little-endian samples into their centred
/// values (see `pcm16_centred`). A trailing odd byte is ignored.
pub fn decode_pcm16(data: &[u8], signed: bool) -> (r: Vec<i32>)
    ensures
        r@.len() == data@.len() / 2,
        forall|k: int|
            0 <= k < r@.len() ==> #[trigger] r@[k] as int == pcm16_centred(
                data@[2 * k],
                data@[2 * k + 1],
                signed,
            ),
{
    let len: usize = data.len();
    let n: usize = len / 2;
    let mut r: Vec<i32> = Vec::with_capacity(n);
    let mut k: usize = 0;
    while k < n
        invariant
            len == data@.len(),
            n == data@.len() / 2,
            k <= n,
            r@.len() == k,
            forall|j: int|
                0 <= j < k ==> #[trigger] r@[j] as int == pcm16_centred(
                    data@[2 * j],
                    data@[2 * j + 1],
                    signed,
                ),
        decreases n - k,
    {
        assert(2 * k + 1 < data@.len());
        let lo: u8 = data[2 * k];
        let hi: u8 = data[2 * k + 1];
        let u: i32 = lo as i32 + 256 * hi as i32;
        let v: i32 = if signed {
            if hi < 128 { u } else { u - 65536 }
        } else {
            u - 32768
        };
        r.push(v);
        k = k + 1;
    }
    r
}

/// Decodes consecutive 32-bit little-endian words. Up to three trailing
/// bytes that do not form a whole word are ignored.
pub fn decode_u32_le(data: &[u8]) -> (r: Vec<u32>)
    ensures
        r@.len() == data@.len() / 4,
        forall|k: int|
            0 <= k < r@.len() ==> #[trigger] r@[k] as int == u32_le(
                data@[4 * k],
                data@[4 * k + 1],
                data@[4 * k + 2],
                data@[4 * k + 3],
            ),
{
    let len: usize = data.len();
    let n: usize = len / 4;
    let mut r: Vec<u32> = Vec::with_capacity(n);
    let mut k: usize = 0;
    while k < n
        invariant
            len == data@.len(),
            n == data@.len() / 4,
            k <= n,
            r@.len() == k,
            forall|j: int|
                0 <= j < k ==> #[trigger] r@[j] as int == u32_le(
                    data@[4 * j],
                    data@[4 * j + 1],
                    data@[4 * j + 2],
                    data@[4 * j + 3],
                ),
        decreases n - k,
    {
        assert(4 * k + 3 < data@.len());
        let b0: u32 = data[4 * k] as u32;
        let b1: u32 = data[4 * k + 1] as u32;
        let b2: u32 = data[4 * k + 2] as u32;
        let b3: u32 = data[4 * k + 3] as u32;
        r.push(b0 + 256 * b1 + 65536 * b2 + 16777216 * b3);
        k = k + 1;
    }
    r
}

} // verus!
