use whispr::capture::{AudioRecording, CaptureConfig, CaptureError, SampleBuffer, SampleEncoding};
use whispr::normalize::{normalize, MonoSignal};
use whispr::pipeline::{can_condition, condition, TARGET_SAMPLE_RATE};
use whispr::resample::{resample_plan, ResampleStep, Resampling};

fn i16_bytes(samples: &[i16]) -> Vec<u8> {
    samples.iter().flat_map(|s| s.to_le_bytes()).collect()
}

fn f32_bytes(samples: &[f32]) -> Vec<u8> {
    samples.iter().flat_map(|s| s.to_le_bytes()).collect()
}

fn scaled(m: &MonoSignal) -> (Vec<i64>, u32) {
    match m {
        MonoSignal::Scaled { sums, divisor } => (sums.clone(), *divisor),
        MonoSignal::FloatFrames { .. } => panic!("expected integer sums"),
    }
}

fn float_mono(m: &MonoSignal) -> Vec<f32> {
    match m {
        MonoSignal::FloatFrames { frames, channels } => frames
            .iter()
            .map(|f| f.iter().map(|b| f32::from_bits(*b)).sum::<f32>() / *channels as f32)
            .collect(),
        MonoSignal::Scaled { .. } => panic!("expected float frames"),
    }
}

fn steps(plan: &Resampling) -> Vec<ResampleStep> {
    match plan {
        Resampling::Interpolate(s) => s.clone(),
        _ => panic!("expected an interpolating plan"),
    }
}

fn apply(input: &[f32], plan: &Resampling) -> Vec<f32> {
    match plan {
        Resampling::Empty => Vec::new(),
        Resampling::Unchanged => input.to_vec(),
        Resampling::Interpolate(s) => s
            .iter()
            .map(|st| {
                let frac = st.frac_num as f32 / st.frac_den as f32;
                input[st.i0] * (1.0 - frac) + input[st.i1] * frac
            })
            .collect(),
    }
}

#[test]
fn single_channel_int16_is_direct_decode() {
    let raw = i16_bytes(&[100, -200, 32767, -32768]);
    let (sums, divisor) = scaled(&normalize(&raw, 1, SampleEncoding::Int16));
    assert_eq!(sums, vec![100, -200, 32767, -32768]);
    assert_eq!(divisor, 32767);
}

#[test]
fn single_channel_float_is_direct_decode() {
    let raw = f32_bytes(&[0.25, -0.75]);
    let mono = normalize(&raw, 1, SampleEncoding::Float32);
    assert_eq!(float_mono(&mono), vec![0.25, -0.75]);
}

#[test]
fn stereo_float_frames_average() {
    let raw = f32_bytes(&[1.0, -1.0, 0.5, 0.5]);
    let mono = normalize(&raw, 2, SampleEncoding::Float32);
    assert_eq!(mono.len(), 2);
    assert_eq!(float_mono(&mono), vec![0.0, 0.5]);
}

#[test]
fn stereo_int16_frame_sums() {
    let raw = i16_bytes(&[32767, -32767, 100, 300]);
    let (sums, divisor) = scaled(&normalize(&raw, 2, SampleEncoding::Int16));
    assert_eq!(sums, vec![0, 400]);
    assert_eq!(divisor, 65534);
}

#[test]
fn uint16_is_centred_on_midpoint() {
    let raw: Vec<u8> = [32768u16, 65535, 0].iter().flat_map(|s| s.to_le_bytes()).collect();
    let (sums, divisor) = scaled(&normalize(&raw, 1, SampleEncoding::UInt16));
    assert_eq!(sums, vec![0, 32767, -32768]);
    assert_eq!(divisor, 32768);
    assert_eq!(sums[2] as f32 / divisor as f32, -1.0);
}

#[test]
fn partial_last_frame_is_kept() {
    let raw = i16_bytes(&[10, 20, 30]);
    let (sums, divisor) = scaled(&normalize(&raw, 2, SampleEncoding::Int16));
    assert_eq!(sums, vec![30, 30]);
    assert_eq!(divisor, 65534);
}

#[test]
fn truncated_tail_is_ignored() {
    let mut raw = i16_bytes(&[5, -5]);
    raw.push(0x7f);
    let (sums, _) = scaled(&normalize(&raw, 1, SampleEncoding::Int16));
    assert_eq!(sums, vec![5, -5]);
    let mut fraw = f32_bytes(&[0.5]);
    fraw.extend_from_slice(&[1, 2, 3]);
    assert_eq!(float_mono(&normalize(&fraw, 1, SampleEncoding::Float32)), vec![0.5]);
}

#[test]
fn int16_encode_then_decode_round_trip() {
    let mut buf = SampleBuffer::new(1_000);
    buf.append_i16(0, &[32767, -32768]);
    let raw = buf.into_bytes();
    let (sums, divisor) = scaled(&normalize(&raw, 1, SampleEncoding::Int16));
    let values: Vec<f32> = sums.iter().map(|s| *s as f32 / divisor as f32).collect();
    assert_eq!(values[0], 1.0);
    assert!((values[1] + 1.0).abs() < 1e-4);
}

#[test]
fn buffer_encodes_little_endian() {
    let mut buf = SampleBuffer::new(10);
    buf.append_i16(0, &[-2]);
    buf.append_u16(1, &[0x1234]);
    buf.append_f32_bits(2, &[1.0f32.to_bits()]);
    assert_eq!(buf.len(), 8);
    assert_eq!(buf.into_bytes(), vec![0xfe, 0xff, 0x34, 0x12, 0x00, 0x00, 0x80, 0x3f]);
}

#[test]
fn buffer_drops_blocks_after_window() {
    let mut buf = SampleBuffer::new(100);
    assert!(buf.accepts(99));
    assert!(!buf.accepts(100));
    buf.append_i16(50, &[1]);
    buf.append_i16(100, &[2]);
    buf.append_u16(150, &[3]);
    buf.append_f32_bits(100, &[4]);
    assert_eq!(buf.window_ns(), 100);
    assert_eq!(buf.into_bytes(), vec![1, 0]);
}

#[test]
fn negotiate_checks_config_then_encoding() {
    assert_eq!(
        CaptureConfig::negotiate(0, 2, Some(SampleEncoding::Int16)),
        Err(CaptureError::ConfigNegotiationFailed)
    );
    assert_eq!(CaptureConfig::negotiate(48000, 0, None), Err(CaptureError::ConfigNegotiationFailed));
    assert_eq!(CaptureConfig::negotiate(48000, 2, None), Err(CaptureError::UnsupportedEncoding));
    assert_eq!(
        CaptureConfig::negotiate(44100, 1, Some(SampleEncoding::Float32)),
        Ok(CaptureConfig { sample_rate: 44100, channel_count: 1, sample_encoding: SampleEncoding::Float32 })
    );
    assert_eq!(SampleEncoding::Float32.width(), 4);
    assert_eq!(SampleEncoding::UInt16.width(), 2);
}

#[test]
fn resample_equal_rates_is_unchanged() {
    let input = [0.1f32, -0.2, 0.3];
    let plan = resample_plan(input.len(), 16000, 16000);
    assert!(matches!(plan, Resampling::Unchanged));
    assert_eq!(apply(&input, &plan), input.to_vec());
}

#[test]
fn resample_degenerate_inputs_are_empty() {
    assert!(matches!(resample_plan(4, 0, 16000), Resampling::Empty));
    assert!(matches!(resample_plan(4, 16000, 0), Resampling::Empty));
    assert!(matches!(resample_plan(0, 8000, 16000), Resampling::Empty));
    assert!(matches!(resample_plan(0, 16000, 16000), Resampling::Empty));
}

#[test]
fn resample_length_is_ceiling() {
    assert_eq!(steps(&resample_plan(4, 8000, 16000)).len(), 8);
    assert_eq!(steps(&resample_plan(3, 48000, 16000)).len(), 1);
    assert_eq!(steps(&resample_plan(5, 3, 2)).len(), 4);
    assert_eq!(steps(&resample_plan(1, 44100, 16000)).len(), 1);
}

#[test]
fn resample_interpolates_midpoints() {
    let input = [0.0f32, 1.0, 0.0, -1.0];
    let plan = resample_plan(input.len(), 4, 8);
    let s = steps(&plan);
    assert_eq!(s[0], ResampleStep { i0: 0, i1: 1, frac_num: 0, frac_den: 8 });
    assert_eq!(s[1], ResampleStep { i0: 0, i1: 1, frac_num: 4, frac_den: 8 });
    assert_eq!(s[7], ResampleStep { i0: 3, i1: 3, frac_num: 4, frac_den: 8 });
    let out = apply(&input, &plan);
    assert_eq!(out.len(), 8);
    assert!((out[0] - 0.0).abs() < 1e-6);
    assert!((out[1] - 0.5).abs() < 1e-6);
    assert!((out[2] - 1.0).abs() < 1e-6);
    assert!((out[3] - 0.5).abs() < 1e-6);
    assert!((out[4] - 0.0).abs() < 1e-6);
    assert!((out[5] + 0.5).abs() < 1e-6);
    assert!((out[6] + 1.0).abs() < 1e-6);
}

#[test]
fn resample_downsampling_positions() {
    let s = steps(&resample_plan(7, 3, 2));
    assert_eq!(s.len(), 5);
    assert_eq!(s[1], ResampleStep { i0: 1, i1: 2, frac_num: 1, frac_den: 2 });
    assert_eq!(s[4], ResampleStep { i0: 6, i1: 6, frac_num: 0, frac_den: 2 });
}

#[test]
fn one_second_stereo_48k_to_16k() {
    let config = CaptureConfig::negotiate(48000, 2, Some(SampleEncoding::Int16)).unwrap();
    let mut buf = SampleBuffer::new(1_000_000_000);
    let block: Vec<i16> = (0..960).map(|i| (i % 200) as i16 - 100).collect();
    for k in 0..100u64 {
        buf.append_i16(k * 10_000_000, &block);
    }
    buf.append_i16(1_000_000_000, &block);
    let rec = AudioRecording::from_capture(config, buf);
    assert_eq!(rec.data.len(), 192_000);
    assert!(can_condition(&rec));
    let c = condition(&rec);
    assert_eq!(c.mono.len(), 48000);
    assert_eq!(steps(&c.plan).len(), 16000);
    assert_eq!(TARGET_SAMPLE_RATE, 16000);
}

#[test]
fn recording_at_target_rate_is_unchanged() {
    let rec = AudioRecording {
        data: i16_bytes(&[1, 2, 3]),
        sample_rate: 16000,
        channels: 1,
        sample_format: SampleEncoding::Int16,
    };
    let c = condition(&rec);
    assert!(matches!(c.plan, Resampling::Unchanged));
    assert_eq!(scaled(&c.mono).0, vec![1, 2, 3]);
}

#[test]
fn recording_without_channels_is_refused() {
    let rec = AudioRecording { data: vec![0, 0], sample_rate: 16000, channels: 0, sample_format: SampleEncoding::Int16 };
    assert!(!can_condition(&rec));
}
