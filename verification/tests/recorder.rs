//! The capture callback, the writer loop and the recording handle.
use assert_no_alloc::assert_no_alloc;
use hound::WavReader;
use octave::recorder::rt::process_input_buffer;
use octave::recorder::telemetry::Telemetry;
use octave::recorder::wav::{FileWrite, FinalizedWav, WavWriter};
use octave::recorder::writer::{writer_step, WriterStep, DRAIN_BLOCK};
use octave::ring::build_ring;
use rtrb::{Consumer, Producer, RingBuffer};
use std::io::Cursor;

fn bits(samples: &[f32]) -> Vec<u32> {
    samples.iter().map(|s| s.to_bits()).collect()
}

fn floats(samples: &[u32]) -> Vec<f32> {
    samples.iter().map(|s| f32::from_bits(*s)).collect()
}

/// The mean of the squares of each channel, non-finite samples counting as zero.
fn mean_squares(samples: &[f32], channels: usize) -> Vec<u32> {
    let frames = samples.len() / channels;
    (0..channels)
        .map(|c| {
            let sum: f32 = (0..frames)
                .map(|f| samples[f * channels + c])
                .map(|s| if s.is_finite() { s * s } else { 0.0 })
                .sum();
            (sum / frames as f32).to_bits()
        })
        .collect()
}

/// One capture callback: peaks and ring, then the mean squares.
fn capture(samples: &[f32], channels: u16, t: &mut Telemetry, p: &mut Producer<u32>) {
    process_input_buffer(&bits(samples), channels, t, p);
    if !samples.is_empty() {
        t.set_mean_squares(mean_squares(samples, usize::from(channels)));
    }
}

fn peak(t: &Telemetry, c: u16) -> f32 {
    f32::from_bits(t.peak_value(c))
}

fn running_peak(t: &Telemetry, c: u16) -> f32 {
    f32::from_bits(t.running_peak_value(c))
}

fn mean_square(t: &Telemetry, c: u16) -> f32 {
    f32::from_bits(t.mean_square_value(c))
}

fn take(consumer: &mut Consumer<u32>, n: usize) -> Vec<u32> {
    let chunk = consumer.read_chunk(n).unwrap();
    let (s1, s2) = chunk.as_slices();
    let mut got = Vec::with_capacity(n);
    got.extend_from_slice(s1);
    got.extend_from_slice(s2);
    chunk.commit_all();
    got
}

fn sine_stereo(frames: usize, sample_rate: u32, freq_hz: f32) -> Vec<f32> {
    (0..frames)
        .flat_map(|i| {
            let t = i as f32 / sample_rate as f32;
            let s = (2.0 * std::f32::consts::PI * freq_hz * t).sin();
            [s, -s]
        })
        .collect()
}

#[test]
fn telemetry_starts_at_zero() {
    let t = Telemetry::new(4);
    for c in 0..4 {
        assert_eq!(peak(&t, c), 0.0);
        assert_eq!(running_peak(&t, c), 0.0);
        assert_eq!(mean_square(&t, c), 0.0);
    }
}

#[test]
fn peak_and_rms_per_channel_are_independent() {
    let frames: Vec<f32> = (0..256)
        .flat_map(|i| {
            let s = if i % 2 == 0 { 1.0 } else { -1.0 };
            [s, 0.5_f32]
        })
        .collect();

    let mut telemetry = Telemetry::new(2);
    let (mut producer, _consumer) = build_ring(48_000, 2, 200);

    capture(&frames, 2, &mut telemetry, &mut producer);

    assert!((peak(&telemetry, 0) - 1.0).abs() < 1e-6);
    assert!((mean_square(&telemetry, 0) - 1.0).abs() < 1e-6);
    assert!((peak(&telemetry, 1) - 0.5).abs() < 1e-6);
    assert!((mean_square(&telemetry, 1) - 0.25).abs() < 1e-6);
}

#[test]
fn running_peak_accumulates_across_buffers() {
    let mut telemetry = Telemetry::new(1);
    let (mut producer, _consumer) = build_ring(48_000, 1, 200);

    capture(&[0.3_f32; 64], 1, &mut telemetry, &mut producer);
    assert!((running_peak(&telemetry, 0) - 0.3).abs() < 1e-6);

    capture(&[0.1_f32; 64], 1, &mut telemetry, &mut producer);
    assert!((running_peak(&telemetry, 0) - 0.3).abs() < 1e-6);
    assert!((peak(&telemetry, 0) - 0.1).abs() < 1e-6);

    capture(&[0.7_f32; 64], 1, &mut telemetry, &mut producer);
    assert!((running_peak(&telemetry, 0) - 0.7).abs() < 1e-6);
}

#[test]
fn samples_pushed_through_ring_in_order() {
    let mut telemetry = Telemetry::new(1);
    let (mut producer, mut consumer) = build_ring(48_000, 1, 200);

    let buf: Vec<f32> = (0..64).map(|i| i as f32 * 0.01).collect();
    capture(&buf, 1, &mut telemetry, &mut producer);

    let got = take(&mut consumer, 64);
    for (i, (g, w)) in got.iter().zip(buf.iter()).enumerate() {
        assert_eq!(*g, w.to_bits(), "sample {i}");
    }
}

#[test]
fn ring_full_increments_dropped_samples_and_does_not_panic() {
    let mut telemetry = Telemetry::new(1);
    let (mut producer, _consumer) = RingBuffer::<u32>::new(100);

    let buf = vec![0.5_f32; 100];
    capture(&buf, 1, &mut telemetry, &mut producer);
    assert_eq!(telemetry.dropped_samples, 0);

    capture(&buf, 1, &mut telemetry, &mut producer);
    assert_eq!(telemetry.dropped_samples, 100);

    capture(&buf, 1, &mut telemetry, &mut producer);
    assert_eq!(telemetry.dropped_samples, 200);
}

#[test]
fn empty_buffer_is_a_no_op() {
    let mut telemetry = Telemetry::new(2);
    let (mut producer, _consumer) = build_ring(48_000, 2, 200);
    capture(&[], 2, &mut telemetry, &mut producer);
    assert_eq!(peak(&telemetry, 0), 0.0);
    assert_eq!(peak(&telemetry, 1), 0.0);
    assert_eq!(telemetry.dropped_samples, 0);
}

#[test]
fn nan_input_replaced_with_zero_in_meter_and_ring() {
    let mut telemetry = Telemetry::new(1);
    let (mut producer, mut consumer) = build_ring(48_000, 1, 200);

    let buf = [0.5_f32, f32::NAN, -0.25, f32::NAN];
    capture(&buf, 1, &mut telemetry, &mut producer);

    assert!((peak(&telemetry, 0) - 0.5).abs() < 1e-6);
    assert!((mean_square(&telemetry, 0) - 0.078_125).abs() < 1e-6);
    assert!(telemetry.non_finite_seen);

    let got = floats(&take(&mut consumer, 4));
    assert_eq!(got, vec![0.5, 0.0, -0.25, 0.0]);
}

#[test]
fn inf_input_replaced_with_zero_in_meter_and_ring() {
    let mut telemetry = Telemetry::new(1);
    let (mut producer, mut consumer) = build_ring(48_000, 1, 200);

    let buf = [f32::INFINITY, 0.3, f32::NEG_INFINITY, -0.7];
    capture(&buf, 1, &mut telemetry, &mut producer);

    assert!((peak(&telemetry, 0) - 0.7).abs() < 1e-6);
    assert!((mean_square(&telemetry, 0) - 0.145).abs() < 1e-6);
    assert!(telemetry.non_finite_seen);

    let got = floats(&take(&mut consumer, 4));
    assert_eq!(got, vec![0.0, 0.3, 0.0, -0.7]);
}

#[test]
fn clean_input_does_not_set_non_finite_flag_or_pay_sanitize_cost() {
    let mut telemetry = Telemetry::new(2);
    let (mut producer, mut consumer) = build_ring(48_000, 2, 200);

    let buf: Vec<f32> = (0..16).map(|i| (i as f32) * 0.01).collect();
    capture(&buf, 2, &mut telemetry, &mut producer);

    assert!(!telemetry.non_finite_seen);
    assert_eq!(floats(&take(&mut consumer, 16)), buf);
}

#[test]
fn process_input_buffer_does_not_allocate_on_happy_path() {
    let mut telemetry = Telemetry::new(2);
    let (mut producer, _consumer) = build_ring(48_000, 2, 200);
    let frames: Vec<f32> = (0..256)
        .flat_map(|i| {
            let s = if i % 2 == 0 { 0.5 } else { -0.5 };
            [s, s * 0.5]
        })
        .collect();
    let frames = bits(&frames);

    assert_no_alloc(|| {
        process_input_buffer(&frames, 2, &mut telemetry, &mut producer);
    });
    assert_eq!(telemetry.dropped_samples, 0);
}

#[test]
fn process_input_buffer_does_not_allocate_when_ring_is_full() {
    let mut telemetry = Telemetry::new(1);
    let (mut producer, _consumer) = RingBuffer::<u32>::new(64);
    let buf = bits(&[0.5_f32; 64]);
    process_input_buffer(&buf, 1, &mut telemetry, &mut producer);
    assert_eq!(telemetry.dropped_samples, 0);

    assert_no_alloc(|| {
        process_input_buffer(&buf, 1, &mut telemetry, &mut producer);
    });
    assert_eq!(telemetry.dropped_samples, 64);
}

#[test]
fn process_input_buffer_does_not_allocate_on_nan_sanitize_path() {
    let mut telemetry = Telemetry::new(1);
    let (mut producer, _consumer) = build_ring(48_000, 1, 200);
    let buf = bits(&[0.5_f32, f32::NAN, 0.25, f32::INFINITY]);

    assert_no_alloc(|| {
        process_input_buffer(&buf, 1, &mut telemetry, &mut producer);
    });
    assert!(telemetry.non_finite_seen);
}

#[test]
fn process_input_buffer_partial_frame_release_rounds_down() {
    let mut telemetry = Telemetry::new(2);
    let (mut producer, mut consumer) = build_ring(48_000, 2, 200);
    let buf = [0.1_f32, 0.2, 0.3, 0.4, 0.5];
    process_input_buffer(&bits(&buf), 2, &mut telemetry, &mut producer);

    let got = floats(&take(&mut consumer, 5));
    assert_eq!(got, vec![0.1, 0.2, 0.3, 0.4, 0.5]);
    // The partial frame is not metered.
    assert_eq!(peak(&telemetry, 0), 0.3);
    assert_eq!(peak(&telemetry, 1), 0.4);
}

#[test]
fn nan_flag_is_latched_across_buffers() {
    let mut telemetry = Telemetry::new(1);
    let (mut producer, mut consumer) = build_ring(48_000, 1, 200);

    capture(&[0.1_f32; 4], 1, &mut telemetry, &mut producer);
    assert!(!telemetry.non_finite_seen);
    take(&mut consumer, 4);

    capture(&[0.1, f32::NAN, 0.2, 0.3], 1, &mut telemetry, &mut producer);
    assert!(telemetry.non_finite_seen);
    take(&mut consumer, 4);

    capture(&[0.1_f32; 4], 1, &mut telemetry, &mut producer);
    assert!(telemetry.non_finite_seen);
}

#[test]
fn a_buffer_that_does_not_fit_is_dropped_whole() {
    let mut telemetry = Telemetry::new(1);
    let (mut producer, mut consumer) = RingBuffer::<u32>::new(3);
    capture(&[0.1, f32::NAN], 1, &mut telemetry, &mut producer);
    capture(&[0.3, 0.4, 0.5], 1, &mut telemetry, &mut producer);
    // All or nothing: the second buffer does not go in at all.
    assert_eq!(telemetry.dropped_samples, 3);
    assert_eq!(floats(&take(&mut consumer, 2)), vec![0.1, 0.0]);
}

#[test]
fn subnormal_samples_count_as_silence_on_the_capture_meter() {
    let mut telemetry = Telemetry::new(1);
    let (mut producer, mut consumer) = build_ring(48_000, 1, 200);
    process_input_buffer(&[0x0000_0001, 0x807F_FFFF], 1, &mut telemetry, &mut producer);
    assert_eq!(telemetry.peak_value(0), 0);
    assert!(!telemetry.non_finite_seen);
    // The ring carries them as they are.
    assert_eq!(take(&mut consumer, 2), vec![0x0000_0001, 0x807F_FFFF]);
    process_input_buffer(&[0x8080_0000], 1, &mut telemetry, &mut producer);
    assert_eq!(telemetry.peak_value(0), 0x0080_0000);
}

fn push_all(producer: &mut Producer<u32>, samples: &[f32]) {
    for s in samples {
        producer.push(s.to_bits()).expect("ring full in test");
    }
}

fn perform(file: &mut Vec<u8>, writes: &[FileWrite]) {
    for w in writes {
        let at = w.offset as usize;
        if file.len() < at + w.bytes.len() {
            file.resize(at + w.bytes.len(), 0);
        }
        file[at..at + w.bytes.len()].copy_from_slice(&w.bytes);
    }
}

/// Runs the writer until it parks (giving the writer back), ends or is cancelled.
fn run_writer(
    consumer: &mut Consumer<u32>,
    mut writer: WavWriter,
    file: &mut Vec<u8>,
    stop: bool,
    cancel: bool,
) -> (Option<WavWriter>, Option<FinalizedWav>) {
    loop {
        match writer_step(consumer, writer, stop, cancel) {
            WriterStep::Cancelled => return (None, None),
            WriterStep::Write { writer: w, writes } => {
                perform(file, &writes);
                writer = w;
            }
            WriterStep::Finalize { finalized, writes } => {
                perform(file, &writes);
                return (None, Some(finalized));
            }
            WriterStep::Park { writer: w } => return (Some(w), None),
        }
    }
}

#[test]
fn writer_drains_ring_and_finalizes_on_stop() {
    let (mut producer, mut consumer) = build_ring(48_000, 2, 200);
    let mut file = Vec::new();
    let (writer, start) = WavWriter::create(48_000, 2);
    perform(&mut file, &start);

    let frames = sine_stereo(500, 48_000, 220.0);
    push_all(&mut producer, &frames);

    let (_, finalized) = run_writer(&mut consumer, writer, &mut file, true, false);
    let fin = finalized.expect("finalized clip on stop");
    assert_eq!(fin.frame_count, 500);
    assert!(!fin.promoted_to_rf64);

    let mut reader = WavReader::new(Cursor::new(file)).unwrap();
    let read: Vec<f32> = reader.samples::<f32>().map(Result::unwrap).collect();
    assert_eq!(read.len(), frames.len());
    for (i, (got, want)) in read.iter().zip(frames.iter()).enumerate() {
        assert_eq!(got.to_bits(), want.to_bits(), "sample {i}");
    }
}

#[test]
fn writer_returns_cancelled_outcome_without_finalizing() {
    let (mut producer, mut consumer) = build_ring(48_000, 2, 200);
    let mut file = Vec::new();
    let (writer, start) = WavWriter::create(48_000, 2);
    perform(&mut file, &start);

    push_all(&mut producer, &sine_stereo(200, 48_000, 220.0));
    let (writer, finalized) = run_writer(&mut consumer, writer, &mut file, false, true);
    assert!(writer.is_none());
    assert!(finalized.is_none());
    // The file exists but is unfinalized.
    assert_eq!(&file[4..8], &[0, 0, 0, 0]);
}

#[test]
fn writer_handles_ring_wrap_over_a_long_recording() {
    let (mut producer, mut consumer) = build_ring(48_000, 2, 50);
    let mut file = Vec::new();
    let (mut writer, start) = WavWriter::create(48_000, 2);
    perform(&mut file, &start);

    let frames = sine_stereo(12_000, 48_000, 440.0);
    for chunk in frames.chunks(2_000) {
        push_all(&mut producer, chunk);
        let (parked, _) = run_writer(&mut consumer, writer, &mut file, false, false);
        writer = parked.expect("the writer parks when the ring is drained");
    }
    let (_, finalized) = run_writer(&mut consumer, writer, &mut file, true, false);
    let fin = finalized.expect("finalized clip");
    assert_eq!(fin.frame_count, 12_000);

    let mut reader = WavReader::new(Cursor::new(file)).unwrap();
    let read: Vec<f32> = reader.samples::<f32>().map(Result::unwrap).collect();
    assert_eq!(read.len(), frames.len());
    for (i, (got, want)) in read.iter().zip(frames.iter()).enumerate() {
        assert_eq!(got.to_bits(), want.to_bits(), "sample {i}");
    }
}

#[test]
fn writer_takes_whole_frames_and_at_most_a_block() {
    let (mut producer, mut consumer) = build_ring(48_000, 2, 200);
    let (writer, _) = WavWriter::create(48_000, 2);
    push_all(&mut producer, &[0.5]);
    // Half a frame stays in the ring.
    let WriterStep::Park { writer } = writer_step(&mut consumer, writer, false, false) else {
        panic!("half a frame is not written");
    };
    push_all(&mut producer, &vec![0.25; 2 * DRAIN_BLOCK]);
    let WriterStep::Write { writes, .. } = writer_step(&mut consumer, writer, true, false) else {
        panic!("a stop still drains the ring");
    };
    assert_eq!(writes.len(), 1);
    assert_eq!(writes[0].offset, 80);
    assert_eq!(writes[0].bytes.len(), 4 * DRAIN_BLOCK);
    assert_eq!(&writes[0].bytes[..8], &[0.5f32.to_le_bytes(), 0.25f32.to_le_bytes()].concat());
}
