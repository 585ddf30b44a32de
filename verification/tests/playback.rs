//! The playback ring, callback, sources and reader.
use hound::{SampleFormat, WavSpec, WavWriter};
use octave::handler::mono_fold::fold_stereo_to_mono_left;
use octave::player::file_source::{FileSource, OpenFileError};
use octave::player::reader::{
    finish_pull, finish_seek, next_turn, reader_step, ReaderAction, ReaderState, ReaderTurn,
    READ_BLOCK_FRAMES,
};
use octave::player::rt::{output_callback, process_output_buffer};
use octave::player::signals::TransportSignals;
use octave::player::source::{BufferSource, PlaybackSource, SeekError};
use octave::player::telemetry::Telemetry;
use octave::player::wav::{parse_header, ParseError};
use octave::recorder::wav::{FileWrite, WavWriter as TakeWriter};
use octave::ring::{build_ring, DEFAULT_HEADROOM_MS};
use rtrb::{Consumer, Producer};
use std::io::Cursor;
use std::sync::Arc;

fn bits(samples: &[f32]) -> Vec<u32> {
    samples.iter().map(|s| s.to_bits()).collect()
}

fn floats(samples: &[u32]) -> Vec<f32> {
    samples.iter().map(|s| f32::from_bits(*s)).collect()
}

#[test]
fn fresh_ring_has_writable_capacity_and_no_readable_data() {
    let (p, c) = build_ring(48_000, 2, DEFAULT_HEADROOM_MS);
    assert_eq!(p.slots(), 96_000);
    assert_eq!(c.slots(), 0);
}

#[test]
fn capacity_scales_with_headroom() {
    let (p, _) = build_ring(48_000, 2, 100);
    assert_eq!(p.slots(), 9_600);
}

#[test]
fn capacity_is_whole_frames() {
    for ch in 1..=8u16 {
        for rate in [44_100, 48_000, 88_200, 96_000, 176_400, 192_000] {
            let (p, _) = build_ring(rate, ch, DEFAULT_HEADROOM_MS);
            assert_eq!(p.slots() % usize::from(ch), 0, "rate={rate}, ch={ch}");
        }
    }
}

fn push_all(producer: &mut Producer<u32>, samples: &[f32]) {
    for s in samples {
        producer.push(s.to_bits()).expect("test ring big enough");
    }
}

/// One output callback on floats: samples, peaks, then the mean squares.
fn play(out: &mut [f32], channels: u16, t: &mut Telemetry, c: &mut Consumer<u32>) {
    let mut raw = bits(out);
    process_output_buffer(&mut raw, channels, t, c);
    out.copy_from_slice(&floats(&raw));
    let ch = usize::from(channels);
    let frames = out.len() / ch;
    if frames > 0 {
        let means = (0..ch)
            .map(|k| {
                let sum: f32 = (0..frames).map(|f| out[f * ch + k] * out[f * ch + k]).sum();
                (sum / frames as f32).to_bits()
            })
            .collect();
        t.set_mean_squares(means);
    }
}

fn peak(t: &Telemetry, c: u16) -> f32 {
    f32::from_bits(t.peak_value(c))
}

fn running_peak(t: &Telemetry, c: u16) -> f32 {
    f32::from_bits(t.running_peak_value(c))
}

fn mean_square(t: &Telemetry, c: u16) -> f32 {
    f32::from_bits(t.mean_square_value(c))
}

#[test]
fn empty_out_is_a_no_op() {
    let mut telemetry = Telemetry::new(2);
    let (_p, mut c) = build_ring(48_000, 2, 200);
    play(&mut [], 2, &mut telemetry, &mut c);
    assert_eq!(peak(&telemetry, 0), 0.0);
    assert_eq!(telemetry.position_frames, 0);
    assert_eq!(telemetry.xrun_count, 0);
}

#[test]
fn happy_path_drains_full_buffer_and_updates_meter() {
    let mut telemetry = Telemetry::new(2);
    let (mut p, mut c) = build_ring(48_000, 2, 200);

    let frames: Vec<f32> = (0..8).flat_map(|_| [1.0_f32, 0.5_f32]).collect();
    push_all(&mut p, &frames);

    let mut out = vec![0.0_f32; 16];
    play(&mut out, 2, &mut telemetry, &mut c);

    assert_eq!(out, frames, "out matches what was in the ring");
    assert_eq!(telemetry.position_frames, 8);
    assert_eq!(telemetry.xrun_count, 0);
    assert!((peak(&telemetry, 0) - 1.0).abs() < 1e-6);
    assert!((peak(&telemetry, 1) - 0.5).abs() < 1e-6);
    assert!((mean_square(&telemetry, 0) - 1.0).abs() < 1e-6);
    assert!((mean_square(&telemetry, 1) - 0.25).abs() < 1e-6);
    assert!((running_peak(&telemetry, 0) - 1.0).abs() < 1e-6);
    assert!((running_peak(&telemetry, 1) - 0.5).abs() < 1e-6);
}

#[test]
fn under_run_writes_silence_and_bumps_xrun() {
    let mut telemetry = Telemetry::new(1);
    let (mut p, mut c) = build_ring(48_000, 1, 200);

    push_all(&mut p, &[0.7_f32; 4]);
    let mut out = vec![1.0_f32; 8];
    play(&mut out, 1, &mut telemetry, &mut c);

    assert_eq!(&out[..4], &[0.7, 0.7, 0.7, 0.7]);
    assert_eq!(&out[4..], &[0.0, 0.0, 0.0, 0.0]);
    assert_eq!(telemetry.xrun_count, 1);
    assert_eq!(telemetry.position_frames, 4);
}

#[test]
fn total_under_run_silences_everything() {
    let mut telemetry = Telemetry::new(2);
    let (_p, mut c) = build_ring(48_000, 2, 200);

    let mut out = vec![1.0_f32; 16];
    play(&mut out, 2, &mut telemetry, &mut c);

    assert!(out.iter().all(|s| *s == 0.0));
    assert_eq!(telemetry.xrun_count, 1);
    assert_eq!(telemetry.position_frames, 0);
    assert_eq!(peak(&telemetry, 0), 0.0);
    assert_eq!(peak(&telemetry, 1), 0.0);
}

#[test]
fn position_advances_across_callbacks() {
    let mut telemetry = Telemetry::new(2);
    let (mut p, mut c) = build_ring(48_000, 2, 200);

    let frames: Vec<f32> = vec![0.0; 32];
    push_all(&mut p, &frames);

    let mut out = vec![0.0_f32; 16];
    play(&mut out, 2, &mut telemetry, &mut c);
    play(&mut out, 2, &mut telemetry, &mut c);
    assert_eq!(telemetry.position_frames, 16);
}

#[test]
fn running_peak_holds_max_across_buffers() {
    let mut telemetry = Telemetry::new(1);
    let (mut p, mut c) = build_ring(48_000, 1, 200);

    push_all(&mut p, &[0.3_f32; 8]);
    let mut out = vec![0.0_f32; 8];
    play(&mut out, 1, &mut telemetry, &mut c);
    assert!((running_peak(&telemetry, 0) - 0.3).abs() < 1e-6);

    push_all(&mut p, &[0.1_f32; 8]);
    play(&mut out, 1, &mut telemetry, &mut c);
    assert!((running_peak(&telemetry, 0) - 0.3).abs() < 1e-6);
    assert!((peak(&telemetry, 0) - 0.1).abs() < 1e-6);

    push_all(&mut p, &[0.7_f32; 8]);
    play(&mut out, 1, &mut telemetry, &mut c);
    assert!((running_peak(&telemetry, 0) - 0.7).abs() < 1e-6);
}

#[test]
fn samples_drained_in_order_across_a_ring_wrap() {
    let mut telemetry = Telemetry::new(1);
    let (mut p, mut c) = build_ring(48_000, 1, 100);

    let first: Vec<f32> = (0..100).map(|i| i as f32).collect();
    push_all(&mut p, &first);

    let mut out = vec![0.0_f32; 60];
    play(&mut out, 1, &mut telemetry, &mut c);
    assert_eq!(out[..60], first[..60]);

    let second: Vec<f32> = (100..180).map(|i| i as f32).collect();
    push_all(&mut p, &second);

    let mut out2 = vec![0.0_f32; 120];
    play(&mut out2, 1, &mut telemetry, &mut c);
    let expected: Vec<f32> = (60..180).map(|i| i as f32).collect();
    assert_eq!(out2, expected);
}

#[test]
fn position_can_be_reset_for_seek() {
    let mut telemetry = Telemetry::new(2);
    let (mut p, mut c) = build_ring(48_000, 2, 200);

    push_all(&mut p, &[0.0_f32; 16]);
    let mut out = vec![0.0_f32; 16];
    play(&mut out, 2, &mut telemetry, &mut c);
    assert_eq!(telemetry.position_frames, 8);

    telemetry.set_position_frames(1000);
    assert_eq!(telemetry.position_frames, 1000);

    push_all(&mut p, &[0.0_f32; 16]);
    play(&mut out, 2, &mut telemetry, &mut c);
    assert_eq!(telemetry.position_frames, 1008);
}

#[test]
fn a_flush_request_empties_the_ring_and_plays_silence() {
    let mut telemetry = Telemetry::new(1);
    let mut signals = TransportSignals::new();
    let (mut p, mut c) = build_ring(48_000, 1, 200);
    push_all(&mut p, &[0.5_f32; 8]);
    let mut out = [7u32; 4];
    output_callback(&mut out, 1, &mut telemetry, &mut signals, &mut c);
    assert_eq!(out, [0.5f32.to_bits(); 4]);
    assert_eq!(telemetry.position_frames, 4);

    signals.request_seek(100);
    signals.flush_request = true;
    output_callback(&mut out, 1, &mut telemetry, &mut signals, &mut c);
    assert_eq!(out, [0; 4]);
    assert!(!signals.flush_request);
    assert_eq!(telemetry.position_frames, 100);
    assert_eq!(telemetry.xrun_count, 0);
    assert_eq!(c.slots(), 0);
}

fn stereo_ramp(frames: usize) -> Arc<[u32]> {
    let mut v = Vec::with_capacity(frames * 2);
    for i in 0..frames {
        let f = i as f32;
        v.push(f.to_bits());
        v.push((-f).to_bits());
    }
    v.into()
}

#[test]
fn new_rejects_misaligned_buffer() {
    let bad: Arc<[u32]> = vec![0; 5].into();
    assert!(BufferSource::new(bad, 48_000, 2).is_none());
}

#[test]
fn new_rejects_zero_channels() {
    let buf: Arc<[u32]> = vec![0; 8].into();
    assert!(BufferSource::new(buf, 48_000, 0).is_none());
}

#[test]
fn pull_returns_zero_at_eof() {
    let buf = stereo_ramp(4);
    let mut src = BufferSource::new(buf, 48_000, 2).unwrap();
    let mut dst = [0; 16];
    let got = src.pull(&mut dst);
    assert_eq!(got, 4);
    let got2 = src.pull(&mut dst);
    assert_eq!(got2, 0, "second pull at EOF returns 0 frames");
}

#[test]
fn pull_clamps_to_remaining_when_dst_is_larger() {
    let buf = stereo_ramp(3);
    let mut src = BufferSource::new(buf, 48_000, 2).unwrap();
    let mut dst = [0; 100];
    let got = src.pull(&mut dst);
    assert_eq!(got, 3);
    assert_eq!(floats(&dst[..6]), [0.0, 0.0, 1.0, -1.0, 2.0, -2.0]);
}

#[test]
fn pull_clamps_to_dst_when_source_is_larger() {
    let buf = stereo_ramp(100);
    let mut src = BufferSource::new(buf, 48_000, 2).unwrap();
    let mut dst = [0; 8];
    let got = src.pull(&mut dst);
    assert_eq!(got, 4);
    let mut dst2 = [0; 8];
    let got2 = src.pull(&mut dst2);
    assert_eq!(got2, 4);
    assert_eq!(floats(&dst2[..2]), [4.0, -4.0]);
}

#[test]
fn source_seek_to_zero_replays_from_start() {
    let buf = stereo_ramp(5);
    let mut src = BufferSource::new(buf, 48_000, 2).unwrap();
    let mut dst = [0; 10];
    src.pull(&mut dst);
    src.seek(0).unwrap();
    let mut dst2 = [0; 10];
    let got = src.pull(&mut dst2);
    assert_eq!(got, 5);
    assert_eq!(dst2, dst);
}

#[test]
fn source_seek_past_end_is_out_of_bounds() {
    let buf = stereo_ramp(4);
    let mut src = BufferSource::new(buf, 48_000, 2).unwrap();
    let err = src.seek(5).unwrap_err();
    assert_eq!(err, SeekError::OutOfBounds { requested: 5, max: 4 });
}

#[test]
fn source_seek_to_exact_eof_is_allowed_and_pulls_zero() {
    let buf = stereo_ramp(4);
    let mut src = BufferSource::new(buf, 48_000, 2).unwrap();
    src.seek(4).expect("seek to duration is allowed");
    let mut dst = [0; 8];
    assert_eq!(src.pull(&mut dst), 0);
}

#[test]
fn duration_frames_matches_buffer_length() {
    let src = BufferSource::new(stereo_ramp(48_000), 48_000, 2).unwrap();
    assert_eq!(src.duration_frames(), Some(48_000));
    assert_eq!(src.sample_rate(), 48_000);
    assert_eq!(src.channels(), 2);
}

#[test]
fn arc_clone_keeps_buffer_alive_after_caller_drops() {
    let original = stereo_ramp(4);
    let mut src = BufferSource::new(Arc::clone(&original), 48_000, 2).unwrap();
    drop(original);
    let mut dst = [0; 8];
    let got = src.pull(&mut dst);
    assert_eq!(got, 4);
    assert_eq!(floats(&dst), [0.0, 0.0, 1.0, -1.0, 2.0, -2.0, 3.0, -3.0]);
}

/// A file in memory, and the source that reads it.
struct Opened {
    file: Vec<u8>,
    at: usize,
    source: FileSource,
}

fn open(file: Vec<u8>) -> Result<Opened, OpenFileError> {
    let parsed = parse_header(&file).map_err(OpenFileError::Parse);
    let at = parsed.as_ref().map_or(0, |m| m.data_offset as usize);
    let source = FileSource::open(parsed)?;
    Ok(Opened { file, at, source })
}

impl Opened {
    fn pull(&mut self, dst: &mut [f32]) -> usize {
        let want = self.source.pull_request(dst.len());
        let end = (self.at + want).min(self.file.len());
        let mut raw = bits(dst);
        let n = self.source.pull(&self.file[self.at..end], &mut raw);
        self.at = end;
        dst.copy_from_slice(&floats(&raw));
        n
    }

    fn seek(&mut self, frame: u64) -> Result<(), SeekError> {
        let moved = match self.source.seek_offset(frame) {
            Ok(offset) => {
                self.at = offset as usize;
                Ok(())
            }
            Err(_) => Ok(()),
        };
        self.source.seek(frame, moved)
    }
}

fn write_hound_wav(sample_rate: u32, channels: u16, frames: usize) -> (Vec<u8>, Vec<f32>) {
    let spec = WavSpec {
        channels,
        sample_rate,
        bits_per_sample: 32,
        sample_format: SampleFormat::Float,
    };
    let mut file = Cursor::new(Vec::new());
    let mut w = WavWriter::new(&mut file, spec).unwrap();
    let mut samples = Vec::with_capacity(frames * usize::from(channels));
    for i in 0..frames {
        for c in 0..channels {
            let v = (i as f32) * 0.001 + (c as f32) * 0.5;
            w.write_sample(v).unwrap();
            samples.push(v);
        }
    }
    w.finalize().unwrap();
    (file.into_inner(), samples)
}

#[test]
fn opens_hound_written_stereo_and_pulls_all_frames() {
    let (file, expected) = write_hound_wav(48_000, 2, 100);
    let mut src = open(file).unwrap();
    assert_eq!(src.source.sample_rate(), 48_000);
    assert_eq!(src.source.channels(), 2);
    assert_eq!(src.source.duration_frames(), Some(100));

    let mut got = vec![0.0f32; 200];
    let frames = src.pull(&mut got);
    assert_eq!(frames, 100);
    assert_eq!(got, expected);

    let mut after = vec![0.0f32; 8];
    assert_eq!(src.pull(&mut after), 0);
}

#[test]
fn pull_in_chunks_concatenates_correctly() {
    let (file, expected) = write_hound_wav(48_000, 2, 50);
    let mut src = open(file).unwrap();
    let mut acc = Vec::with_capacity(expected.len());
    let mut chunk = vec![0.0f32; 6];
    loop {
        let frames = src.pull(&mut chunk);
        if frames == 0 {
            break;
        }
        acc.extend_from_slice(&chunk[..frames * 2]);
    }
    assert_eq!(acc, expected);
}

#[test]
fn file_source_seek_to_zero_replays_from_start() {
    let (file, expected) = write_hound_wav(48_000, 2, 20);
    let mut src = open(file).unwrap();

    let mut buf = vec![0.0f32; 40];
    let _ = src.pull(&mut buf);
    src.seek(0).unwrap();
    let mut buf2 = vec![0.0f32; 40];
    let frames = src.pull(&mut buf2);
    assert_eq!(frames, 20);
    assert_eq!(buf2, expected);
}

#[test]
fn seek_to_middle_resumes_correctly() {
    let (file, expected) = write_hound_wav(48_000, 2, 30);
    let mut src = open(file).unwrap();

    src.seek(10).unwrap();
    let mut buf = vec![0.0f32; 40];
    let frames = src.pull(&mut buf);
    assert_eq!(frames, 20);
    assert_eq!(buf[..40], expected[20..60]);
}

#[test]
fn file_source_seek_past_end_is_out_of_bounds() {
    let (file, _) = write_hound_wav(48_000, 2, 10);
    let mut src = open(file).unwrap();
    let err = src.seek(11).unwrap_err();
    assert_eq!(err, SeekError::OutOfBounds { requested: 11, max: 10 });
}

#[test]
fn file_source_seek_to_exact_eof_is_allowed_and_pulls_zero() {
    let (file, _) = write_hound_wav(48_000, 2, 10);
    let mut src = open(file).unwrap();
    src.seek(10).unwrap();
    let mut buf = vec![0.0f32; 8];
    assert_eq!(src.pull(&mut buf), 0);
}

#[test]
fn open_rejects_nonexistent_file() {
    let missing = Err(OpenFileError::Io("No such file or directory (os error 2)".to_string()));
    let err = FileSource::open(missing).unwrap_err();
    assert!(matches!(err, OpenFileError::Io(_)));
}

#[test]
fn open_rejects_non_wav_file() {
    let err = open(b"not a wav file at all".to_vec()).err().unwrap();
    assert!(matches!(err, OpenFileError::Parse(_)));
}

#[test]
fn mono_file_round_trips() {
    let (file, expected) = write_hound_wav(44_100, 1, 17);
    let mut src = open(file).unwrap();
    assert_eq!(src.source.channels(), 1);
    assert_eq!(src.source.sample_rate(), 44_100);
    let mut buf = vec![0.0f32; 17];
    let frames = src.pull(&mut buf);
    assert_eq!(frames, 17);
    assert_eq!(buf, expected);
}

#[test]
fn a_file_that_ends_early_yields_its_whole_frames() {
    let (mut file, expected) = write_hound_wav(48_000, 2, 10);
    file.truncate(file.len() - 12);
    let mut src = open(file).unwrap();
    assert_eq!(src.source.duration_frames(), Some(10));
    let mut buf = vec![9.0f32; 20];
    assert_eq!(src.pull(&mut buf), 8);
    assert_eq!(buf[..16], expected[..16]);
    assert_eq!(src.pull(&mut buf), 0);
}

#[test]
fn file_errors_have_their_texts() {
    assert_eq!(OpenFileError::Io("gone".to_string()).message(), "io: gone");
    assert_eq!(
        OpenFileError::Parse(ParseError::Unsupported("x".to_string())).message(),
        "not a usable WAV: unsupported WAVE format: x"
    );
    let (file, _) = write_hound_wav(48_000, 2, 10);
    let mut src = open(file).unwrap();
    assert_eq!(
        src.source.seek(3, Err("bad seek".to_string())),
        Err(SeekError::Io("bad seek".to_string()))
    );
}

fn ramp_source(frames: usize, sample_rate: u32) -> BufferSource {
    BufferSource::new(stereo_ramp(frames), sample_rate, 2).unwrap()
}

fn fresh() -> (ReaderState, TransportSignals, Vec<u32>, Producer<u32>, Consumer<u32>) {
    let signals = TransportSignals::new();
    let (p, c) = build_ring(48_000, 2, 200);
    (ReaderState::new(), signals, vec![0; READ_BLOCK_FRAMES * 2], p, c)
}

fn take(c: &mut Consumer<u32>, n: usize) -> Vec<f32> {
    let chunk = c.read_chunk(n).unwrap();
    let (s1, s2) = chunk.as_slices();
    let mut got = floats(s1);
    got.extend(floats(s2));
    chunk.commit_all();
    got
}

#[test]
fn step_pushes_source_samples_into_ring() {
    let mut src = ramp_source(8, 48_000);
    let (mut state, mut signals, mut scratch, mut p, mut c) = fresh();

    let action = reader_step(&mut state, &mut src, &mut p, &mut signals, &mut scratch);
    assert_eq!(action, ReaderAction::Continue);
    assert_eq!(c.slots(), 16);
    assert!(signals.eof_seen);

    let got = take(&mut c, 16);
    for (i, pair) in got.chunks(2).enumerate() {
        assert_eq!(pair[0], i as f32);
        assert_eq!(pair[1], -(i as f32));
    }
}

#[test]
fn step_returns_exit_on_stop_request() {
    let mut src = ramp_source(8, 48_000);
    let (mut state, mut signals, mut scratch, mut p, _c) = fresh();
    signals.stop_request = true;
    let action = reader_step(&mut state, &mut src, &mut p, &mut signals, &mut scratch);
    assert_eq!(action, ReaderAction::Exit);
}

#[test]
fn step_after_eof_idles() {
    let mut src = ramp_source(4, 48_000);
    let (mut state, mut signals, mut scratch, mut p, _c) = fresh();

    let _ = reader_step(&mut state, &mut src, &mut p, &mut signals, &mut scratch);
    assert!(signals.eof_seen);

    let writable_before = p.slots();
    let action = reader_step(&mut state, &mut src, &mut p, &mut signals, &mut scratch);
    assert_eq!(action, ReaderAction::Sleep);
    assert_eq!(p.slots(), writable_before);
}

#[test]
fn full_seek_handshake_repositions_source() {
    let mut src = ramp_source(20, 48_000);
    let (mut state, mut signals, mut scratch, mut p, mut c) = fresh();

    let _ = reader_step(&mut state, &mut src, &mut p, &mut signals, &mut scratch);
    assert_eq!(c.slots(), 40);

    take(&mut c, 8);

    signals.request_seek(5);

    let action = reader_step(&mut state, &mut src, &mut p, &mut signals, &mut scratch);
    assert_eq!(action, ReaderAction::Sleep);
    assert!(signals.flush_request);
    assert!(state.waiting_for_audio_ack);

    let action = reader_step(&mut state, &mut src, &mut p, &mut signals, &mut scratch);
    assert_eq!(action, ReaderAction::Sleep);
    assert!(state.waiting_for_audio_ack);

    signals.flush_request = false;

    let action = reader_step(&mut state, &mut src, &mut p, &mut signals, &mut scratch);
    assert_eq!(action, ReaderAction::Continue);
    assert!(!signals.seek_pending);
    assert!(!state.waiting_for_audio_ack);

    let stale = c.slots();
    if stale > 0 {
        take(&mut c, stale);
    }

    let _ = reader_step(&mut state, &mut src, &mut p, &mut signals, &mut scratch);
    assert_eq!(take(&mut c, 2), vec![5.0, -5.0]);
}

#[test]
fn seek_resets_eof_so_playback_can_resume_from_new_position() {
    let mut src = ramp_source(4, 48_000);
    let (mut state, mut signals, mut scratch, mut p, _c) = fresh();

    let _ = reader_step(&mut state, &mut src, &mut p, &mut signals, &mut scratch);
    assert!(signals.eof_seen);

    signals.request_seek(0);
    let _ = reader_step(&mut state, &mut src, &mut p, &mut signals, &mut scratch);
    assert!(!signals.eof_seen, "seek clears EOF");
    assert!(!signals.playback_complete, "seek clears complete");
}

#[test]
fn seek_to_out_of_bounds_marks_source_as_eof() {
    let mut src = ramp_source(4, 48_000);
    let (mut state, mut signals, mut scratch, mut p, _c) = fresh();

    signals.request_seek(100);
    let _ = reader_step(&mut state, &mut src, &mut p, &mut signals, &mut scratch);
    signals.flush_request = false;
    let _ = reader_step(&mut state, &mut src, &mut p, &mut signals, &mut scratch);
    assert!(signals.eof_seen);
    assert!(!signals.seek_pending);
}

#[test]
fn full_ring_returns_sleep_without_pull() {
    let mut src = ramp_source(10_000, 48_000);
    let mut signals = TransportSignals::new();
    let mut state = ReaderState::new();
    let (mut p, _c) = build_ring(48_000, 2, 100);
    let mut scratch = vec![0; READ_BLOCK_FRAMES * 2];

    loop {
        let action = reader_step(&mut state, &mut src, &mut p, &mut signals, &mut scratch);
        if action == ReaderAction::Sleep {
            break;
        }
        assert_eq!(action, ReaderAction::Continue);
    }
    assert_eq!(p.slots(), 0);
}

#[test]
fn playback_completes_when_the_drained_ring_follows_the_end_of_the_source() {
    let mut src = ramp_source(4, 48_000);
    let (mut state, mut signals, mut scratch, mut p, mut c) = fresh();
    let mut telemetry = Telemetry::new(2);
    let _ = reader_step(&mut state, &mut src, &mut p, &mut signals, &mut scratch);

    let mut out = [0u32; 6];
    output_callback(&mut out, 2, &mut telemetry, &mut signals, &mut c);
    assert_eq!(floats(&out), vec![0.0, 0.0, 1.0, -1.0, 2.0, -2.0]);
    assert!(!signals.playback_complete);
    output_callback(&mut out, 2, &mut telemetry, &mut signals, &mut c);
    assert_eq!(floats(&out), vec![3.0, -3.0, 0.0, 0.0, 0.0, 0.0]);
    assert_eq!(telemetry.position_frames, 4);
    output_callback(&mut out, 2, &mut telemetry, &mut signals, &mut c);
    assert!(signals.playback_complete);
}

#[test]
fn a_step_splits_at_the_source() {
    let (mut state, mut signals, _scratch, mut p, mut c) = fresh();
    assert_eq!(next_turn(&mut state, &mut p, &mut signals, 2, 7), ReaderTurn::Pull(6));
    assert_eq!(
        next_turn(&mut state, &mut p, &mut signals, 2, 1),
        ReaderTurn::Over(ReaderAction::Sleep)
    );
    let block = bits(&[1.0, -1.0, 2.0, -2.0]);
    assert_eq!(finish_pull(&mut p, &mut signals, &block, 4), ReaderAction::Continue);
    assert!(!signals.eof_seen);
    assert_eq!(finish_pull(&mut p, &mut signals, &block[..2], 4), ReaderAction::Continue);
    assert!(signals.eof_seen);
    assert_eq!(
        next_turn(&mut state, &mut p, &mut signals, 2, 7),
        ReaderTurn::Over(ReaderAction::Sleep)
    );
    assert_eq!(take(&mut c, 6), vec![1.0, -1.0, 2.0, -2.0, 1.0, -1.0]);

    signals.request_seek(3);
    assert_eq!(
        next_turn(&mut state, &mut p, &mut signals, 2, 7),
        ReaderTurn::Over(ReaderAction::Sleep)
    );
    signals.flush_request = false;
    assert_eq!(next_turn(&mut state, &mut p, &mut signals, 2, 7), ReaderTurn::Seek(3));
    assert_eq!(finish_seek(&mut state, &mut signals, true), ReaderAction::Continue);
    assert!(!signals.eof_seen && !signals.seek_pending && !state.waiting_for_audio_ack);
    assert_eq!(finish_pull(&mut p, &mut signals, &[], 4), ReaderAction::Sleep);
    assert!(signals.eof_seen);
}

/// Steps and callbacks in turn, with a ring much smaller than the source.
#[test]
fn the_output_is_the_source_in_order() {
    let mut src = ramp_source(1_000, 48_000);
    let mut signals = TransportSignals::new();
    let mut state = ReaderState::new();
    let (mut p, mut c) = build_ring(48_000, 2, 1);
    assert_eq!(p.slots(), 96);
    let mut scratch = vec![0; 2 * READ_BLOCK_FRAMES];
    let mut telemetry = Telemetry::new(2);
    let mut heard: Vec<u32> = Vec::new();
    while heard.len() < 2_000 {
        let _ = reader_step(&mut state, &mut src, &mut p, &mut signals, &mut scratch);
        let mut out = [0u32; 10];
        output_callback(&mut out, 2, &mut telemetry, &mut signals, &mut c);
        heard.extend(out);
    }
    assert_eq!(heard, stereo_ramp(1_000).to_vec());
    assert_eq!(telemetry.xrun_count, 0);
}

fn perform(file: &mut Vec<u8>, writes: &[FileWrite]) {
    for w in writes {
        let at = w.offset as usize;
        let end = at + w.bytes.len();
        if file.len() < end {
            file.resize(end, 0);
        }
        file[at..end].copy_from_slice(&w.bytes);
    }
}

/// A take of 12 stereo frames, plain or promoted, read back from every frame on.
#[test]
fn every_frame_of_a_take_reads_back() {
    let samples = stereo_ramp(12).to_vec();
    for threshold in [u64::MAX, 100] {
        let mut file = Vec::new();
        let (mut w, start) = TakeWriter::create_with_threshold(48_000, 2, threshold);
        perform(&mut file, &start);
        for block in samples.chunks(6) {
            let writes = w.write_frames(block);
            perform(&mut file, &writes);
        }
        let (fin, last) = w.finalize();
        perform(&mut file, &last);
        assert_eq!(fin.promoted_to_rf64, threshold == 100);

        let mut src = open(file).unwrap();
        assert_eq!(src.source.duration_frames(), Some(12));
        for frame in 0..=12usize {
            src.seek(frame as u64).unwrap();
            let mut got = vec![0.0f32; 24];
            assert_eq!(src.pull(&mut got), 12 - frame);
            assert_eq!(bits(&got[..24 - 2 * frame]), samples[2 * frame..]);
        }
    }
}

/// A seek in the middle of playback: the ring is dropped, one buffer is silent,
/// and playback goes on from the frame that was asked for.
#[test]
fn a_seek_is_heard_from_its_frame_on() {
    let mut src = ramp_source(200, 48_000);
    let (mut state, mut signals, mut scratch, mut p, mut c) = fresh();
    let mut telemetry = Telemetry::new(2);
    let mut out = [0u32; 10];
    let _ = reader_step(&mut state, &mut src, &mut p, &mut signals, &mut scratch);
    output_callback(&mut out, 2, &mut telemetry, &mut signals, &mut c);
    assert_eq!(telemetry.position_frames, 5);
    assert!(signals.eof_seen);

    signals.request_seek(150);
    let asked = reader_step(&mut state, &mut src, &mut p, &mut signals, &mut scratch);
    assert_eq!(asked, ReaderAction::Sleep);
    output_callback(&mut out, 2, &mut telemetry, &mut signals, &mut c);
    assert_eq!(out, [0; 10]);
    assert_eq!((telemetry.position_frames, c.slots()), (150, 0));
    assert_eq!(telemetry.xrun_count, 0);
    let moved = reader_step(&mut state, &mut src, &mut p, &mut signals, &mut scratch);
    assert_eq!(moved, ReaderAction::Continue);
    let _ = reader_step(&mut state, &mut src, &mut p, &mut signals, &mut scratch);
    output_callback(&mut out, 2, &mut telemetry, &mut signals, &mut c);
    assert_eq!(out.to_vec(), stereo_ramp(200)[300..310].to_vec());
    assert_eq!(telemetry.position_frames, 155);
}

/// A folded take plays its left channel on both sides.
#[test]
fn a_folded_take_plays_left_on_both_sides() {
    let samples = stereo_ramp(9).to_vec();
    let mut file = Vec::new();
    let (mut w, start) = TakeWriter::create(48_000, 2);
    perform(&mut file, &start);
    let writes = w.write_frames(&samples);
    perform(&mut file, &writes);
    let (_, last) = w.finalize();
    perform(&mut file, &last);

    let folded = fold_stereo_to_mono_left(file.clone()).unwrap();
    assert_eq!(folded[..80], file[..80]);
    let mut src = open(folded).unwrap();
    let mut got = vec![0.0f32; 18];
    assert_eq!(src.pull(&mut got), 9);
    for (i, pair) in got.chunks(2).enumerate() {
        assert_eq!(pair, [i as f32, i as f32]);
    }
}

/// A full ring says nothing about the source, even where nothing is left of it.
#[test]
fn a_full_ring_does_not_end_the_source() {
    let mut src = ramp_source(48, 48_000);
    let mut signals = TransportSignals::new();
    let mut state = ReaderState::new();
    let (mut p, mut c) = build_ring(48_000, 2, 1);
    let mut scratch = vec![0; READ_BLOCK_FRAMES * 2];
    let first = reader_step(&mut state, &mut src, &mut p, &mut signals, &mut scratch);
    assert_eq!((first, p.slots()), (ReaderAction::Continue, 0));
    let full = reader_step(&mut state, &mut src, &mut p, &mut signals, &mut scratch);
    assert_eq!((full, signals.eof_seen), (ReaderAction::Sleep, false));
    take(&mut c, 2);
    let empty = reader_step(&mut state, &mut src, &mut p, &mut signals, &mut scratch);
    assert_eq!((empty, signals.eof_seen), (ReaderAction::Sleep, true));
}
