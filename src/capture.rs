//! What a capture session negotiates with the device, the buffer that the
//! capture callback fills, and the recording handed back afterwards.

use crate::codec::{
    i16s_bytes, push_i16_le, push_u16_le, push_u32_le, u16s_bytes, u32s_bytes,
};
use vstd::prelude::*;

verus! {

/// The numeric encoding of one raw sample.
#[derive(Clone, Copy, Debug, PartialEq, Eq, Structural)]
pub enum SampleEncoding {
    /// Signed 16-bit little-endian integers.
    Int16,
    /// Unsigned 16-bit little-endian integers, centred on 32768.
    UInt16,
    /// IEEE-754 32-bit little-endian floats.
    Float32,
}

impl SampleEncoding {
    /// Bytes taken by one sample.
    pub open spec fn width_spec(self) -> nat {
        match self {
            SampleEncoding::Float32 => 4,
            _ => 2,
        }
    }

    /// Bytes taken by one sample.
    pub fn width(self) -> (r: usize)
        ensures
            r as nat == self.width_spec(),
    {
        match self {
            SampleEncoding::Float32 => 4,
            _ => 2,
        }
    }
}

/// Why a capture attempt failed or was disturbed.
#[derive(Clone, Copy, Debug, PartialEq, Eq, Structural)]
pub enum CaptureError {
    /// The host has no default input device.
    DeviceUnavailable,
    /// The device reported no usable configuration.
    ConfigNegotiationFailed,
    /// The device's encoding is none of the three that are decoded.
    UnsupportedEncoding,
    /// The audio stack reported a problem while streaming; capture goes on.
    StreamRuntimeError,
}

/// The device's own configuration, fixed for one capture session.
#[derive(Clone, Copy, Debug, PartialEq, Eq, Structural)]
pub struct CaptureConfig {
    pub sample_rate: u32,
    pub channel_count: u16,
    pub sample_encoding: SampleEncoding,
}

impl CaptureConfig {
    /// A rate and a channel count that a session can work with.
    pub open spec fn wf(self) -> bool {
        self.sample_rate > 0 && self.channel_count > 0
    }

    /// Accepts what the device reported. `encoding` is `None` where the
    /// device's encoding is none of the three known ones. A zero rate or
    /// channel count is a failed negotiation, checked before the encoding.
    pub fn negotiate(sample_rate: u32, channel_count: u16, encoding: Option<SampleEncoding>) -> (r:
        Result<CaptureConfig, CaptureError>)
        ensures
            (sample_rate == 0 || channel_count == 0) ==> r == Err::<CaptureConfig, CaptureError>(
                CaptureError::ConfigNegotiationFailed,
            ),
            (sample_rate > 0 && channel_count > 0 && encoding is None) ==> r == Err::<
                CaptureConfig,
                CaptureError,
            >(CaptureError::UnsupportedEncoding),
            (sample_rate > 0 && channel_count > 0 && encoding is Some) ==> r == Ok::<
                CaptureConfig,
                CaptureError,
            >(CaptureConfig { sample_rate, channel_count, sample_encoding: encoding->0 }),
            r is Ok ==> r->Ok_0.wf(),
    {
        if sample_rate == 0 || channel_count == 0 {
            return Err(CaptureError::ConfigNegotiationFailed);
        }
        match encoding {
            Some(e) => Ok(CaptureConfig { sample_rate, channel_count, sample_encoding: e }),
            None => Err(CaptureError::UnsupportedEncoding),
        }
    }
}

/// The raw bytes that the capture callback appends to. Blocks delivered
/// once the recording window has elapsed are not appended.
pub struct SampleBuffer {
    bytes: Vec<u8>,
    window_ns: u64,
}

impl SampleBuffer {
    /// The bytes appended so far.
    pub closed spec fn contents(&self) -> Seq<u8> {
        self.bytes@
    }

    /// The length of the recording window, in nanoseconds.
    pub closed spec fn window(&self) -> u64 {
        self.window_ns
    }

    /// An empty buffer for a window of `window_ns` nanoseconds.
    pub fn new(window_ns: u64) -> (r: SampleBuffer)
        ensures
            r.contents() == Seq::<u8>::empty(),
            r.window() == window_ns,
    {
        SampleBuffer { bytes: Vec::new(), window_ns }
    }

    /// The length of the recording window, in nanoseconds.
    pub fn window_ns(&self) -> (r: u64)
        ensures
            r == self.window(),
    {
        self.window_ns
    }

    /// Number of bytes appended so far.
    pub fn len(&self) -> (r: usize)
        ensures
            r as nat == self.contents().len(),
    {
        self.bytes.len()
    }

    /// Whether `elapsed_ns` after the session started still lies in the window.
    pub fn accepts(&self, elapsed_ns: u64) -> (r: bool)
        ensures
            r == (elapsed_ns < self.window()),
    {
        elapsed_ns < self.window_ns
    }

    /// Appends a block of signed 16-bit samples delivered `elapsed_ns`
    /// after the session started; a block past the window is dropped.
    pub fn append_i16(&mut self, elapsed_ns: u64, block: &[i16])
        ensures
            final(self).window() == old(self).window(),
            elapsed_ns < old(self).window() ==> final(self).contents() == old(self).contents()
                + i16s_bytes(block@),
            elapsed_ns >= old(self).window() ==> final(self).contents() == old(self).contents(),
    {
        if elapsed_ns >= self.window_ns {
            return;
        }
        let mut i: usize = 0;
        while i < block.len()
            invariant
                i <= block@.len(),
                self.window_ns == old(self).window_ns,
                self.bytes@ == old(self).bytes@ + i16s_bytes(block@.subrange(0, i as int)),
            decreases block@.len() - i,
        {
            proof {
                assert(block@.subrange(0, i + 1).drop_last() =~= block@.subrange(0, i as int));
            }
            push_i16_le(&mut self.bytes, block[i]);
            i = i + 1;
        }
        assert(block@.subrange(0, i as int) =~= block@);
    }

    /// Appends a block of unsigned 16-bit samples delivered `elapsed_ns`
    /// after the session started; a block past the window is dropped.
    pub fn append_u16(&mut self, elapsed_ns: u64, block: &[u16])
        ensures
            final(self).window() == old(self).window(),
            elapsed_ns < old(self).window() ==> final(self).contents() == old(self).contents()
                + u16s_bytes(block@),
            elapsed_ns >= old(self).window() ==> final(self).contents() == old(self).contents(),
    {
        if elapsed_ns >= self.window_ns {
            return;
        }
        let mut i: usize = 0;
        while i < block.len()
            invariant
                i <= block@.len(),
                self.window_ns == old(self).window_ns,
                self.bytes@ == old(self).bytes@ + u16s_bytes(block@.subrange(0, i as int)),
            decreases block@.len() - i,
        {
            proof {
                assert(block@.subrange(0, i + 1).drop_last() =~= block@.subrange(0, i as int));
            }
            push_u16_le(&mut self.bytes, block[i]);
            i = i + 1;
        }
        assert(block@.subrange(0, i as int) =~= block@);
    }

    /// Appends a block of 32-bit float samples, given by their bit patterns,
    /// delivered `elapsed_ns` after the session started; a block past the
    /// window is dropped.
    pub fn append_f32_bits(&mut self, elapsed_ns: u64, block: &[u32])
        ensures
            final(self).window() == old(self).window(),
            elapsed_ns < old(self).window() ==> final(self).contents() == old(self).contents()
                + u32s_bytes(block@),
            elapsed_ns >= old(self).window() ==> final(self).contents() == old(self).contents(),
    {
        if elapsed_ns >= self.window_ns {
            return;
        }
        let mut i: usize = 0;
        while i < block.len()
            invariant
                i <= block@.len(),
                self.window_ns == old(self).window_ns,
                self.bytes@ == old(self).bytes@ + u32s_bytes(block@.subrange(0, i as int)),
            decreases block@.len() - i,
        {
            proof {
                assert(block@.subrange(0, i + 1).drop_last() =~= block@.subrange(0, i as int));
            }
            push_u32_le(&mut self.bytes, block[i]);
            i = i + 1;
        }
        assert(block@.subrange(0, i as int) =~= block@);
    }

    /// Ends the session and hands the bytes over.
    pub fn into_bytes(self) -> (r: Vec<u8>)
        ensures
            r@ == self.contents(),
    {
        self.bytes
    }
}

/// A finished capture: the raw bytes and the configuration they were
/// recorded in.
pub struct AudioRecording {
    pub data: Vec<u8>,
    pub sample_rate: u32,
    pub channels: u16,
    pub sample_format: SampleEncoding,
}

impl AudioRecording {
    /// Pairs the bytes of a finished buffer with the negotiated configuration.
    pub fn from_capture(config: CaptureConfig, buffer: SampleBuffer) -> (r: AudioRecording)
        ensures
            r.data@ == buffer.contents(),
            r.sample_rate == config.sample_rate,
            r.channels == config.channel_count,
            r.sample_format == config.sample_encoding,
    {
        AudioRecording {
            data: buffer.into_bytes(),
            sample_rate: config.sample_rate,
            channels: config.channel_count,
            sample_format: config.sample_encoding,
        }
    }
}

} // verus!
