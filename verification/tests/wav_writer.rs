//! The WAV writer, through whole file images.
use hound::{SampleFormat, WavReader};
use octave::player::wav::{parse_header, WavMeta};
use octave::recorder::wav::header::{build_initial_header, riff_chunk_size, HEADER_SIZE};
use octave::recorder::wav::rf64::{build_ds64_chunk, build_rf64_marker, RF64_SIZE_SENTINEL};
use octave::recorder::wav::{FileWrite, WavWriter, DEFAULT_RF64_THRESHOLD_BYTES};
use octave::samples::{decode_samples, encode_samples};
use std::io::Cursor;

/// Interleaved stereo samples of a sine, with channel 1 inverted.
fn sine_stereo(frames: usize, sample_rate: u32, freq_hz: f32) -> Vec<f32> {
    (0..frames)
        .flat_map(|i| {
            let t = i as f32 / sample_rate as f32;
            let s = (2.0 * std::f32::consts::PI * freq_hz * t).sin();
            [s, -s]
        })
        .collect()
}

fn bits(samples: &[f32]) -> Vec<u32> {
    samples.iter().map(|s| s.to_bits()).collect()
}

fn perform(file: &mut Vec<u8>, writes: &[FileWrite]) {
    for w in writes {
        let at = w.offset as usize;
        if file.len() < at + w.bytes.len() {
            file.resize(at + w.bytes.len(), 0);
        }
        file[at..at + w.bytes.len()].copy_from_slice(&w.bytes);
    }
}

fn audio_of(file: &[u8]) -> Vec<u32> {
    let n = (file.len() - 80) / 4;
    let mut out = vec![0u32; n];
    assert_eq!(decode_samples(&file[80..], &mut out, n), n);
    out
}

#[test]
fn round_trip_stereo_through_hound_is_bit_exact() {
    let frames = sine_stereo(480, 48_000, 440.0);
    let mut file = Vec::new();
    let (mut w, start) = WavWriter::create(48_000, 2);
    perform(&mut file, &start);
    let writes = w.write_frames(&bits(&frames));
    perform(&mut file, &writes);
    let (fin, last) = w.finalize();
    perform(&mut file, &last);

    assert_eq!(fin.frame_count, 480);
    assert!(!fin.promoted_to_rf64);
    assert_eq!(fin.bytes_written, 80 + 480 * 2 * 4);

    let mut reader = WavReader::new(Cursor::new(file)).unwrap();
    let spec = reader.spec();
    assert_eq!(spec.channels, 2);
    assert_eq!(spec.sample_rate, 48_000);
    assert_eq!(spec.bits_per_sample, 32);
    assert_eq!(spec.sample_format, SampleFormat::Float);

    let read: Vec<f32> = reader.samples::<f32>().map(Result::unwrap).collect();
    assert_eq!(read.len(), frames.len());
    for (i, (got, want)) in read.iter().zip(frames.iter()).enumerate() {
        assert_eq!(got.to_bits(), want.to_bits(), "sample {i}: got {got:?} want {want:?}");
    }
}

#[test]
fn empty_recording_finalizes_to_a_valid_zero_sample_file() {
    let mut file = Vec::new();
    let (w, start) = WavWriter::create(48_000, 2);
    perform(&mut file, &start);
    let (fin, last) = w.finalize();
    perform(&mut file, &last);

    assert_eq!(fin.frame_count, 0);
    assert_eq!(fin.bytes_written, 80);
    assert!(!fin.promoted_to_rf64);

    let reader = WavReader::new(Cursor::new(file)).unwrap();
    assert_eq!(reader.len(), 0);
    assert_eq!(reader.spec().channels, 2);
    assert_eq!(reader.spec().sample_rate, 48_000);
}

#[test]
fn rf64_promotion_patches_header_in_place() {
    let mut file = Vec::new();
    let (mut w, start) = WavWriter::create_with_threshold(48_000, 2, 1024);
    perform(&mut file, &start);
    let frames = sine_stereo(500, 48_000, 220.0);
    let writes = w.write_frames(&bits(&frames));
    perform(&mut file, &writes);
    let (fin, last) = w.finalize();
    perform(&mut file, &last);

    assert!(fin.promoted_to_rf64);
    assert_eq!(fin.frame_count, 500);
    let audio_bytes: u64 = 500 * 2 * 4;
    assert_eq!(fin.bytes_written, 80 + audio_bytes);

    let bytes = file;
    assert_eq!(&bytes[0..4], b"RF64");
    assert_eq!(&bytes[4..8], &0xFFFF_FFFFu32.to_le_bytes());
    assert_eq!(&bytes[8..12], b"WAVE");
    assert_eq!(&bytes[12..16], b"ds64");
    assert_eq!(&bytes[16..20], &28u32.to_le_bytes());

    let riff_size = u64::from_le_bytes(bytes[20..28].try_into().unwrap());
    assert_eq!(riff_size, 72 + audio_bytes);

    let data_size = u64::from_le_bytes(bytes[28..36].try_into().unwrap());
    assert_eq!(data_size, audio_bytes);

    let sample_count = u64::from_le_bytes(bytes[36..44].try_into().unwrap());
    assert_eq!(sample_count, 500);

    let table_length = u32::from_le_bytes(bytes[44..48].try_into().unwrap());
    assert_eq!(table_length, 0);

    let legacy_data_size = u32::from_le_bytes(bytes[76..80].try_into().unwrap());
    assert_eq!(legacy_data_size, 0xFFFF_FFFF);
}

#[test]
fn rf64_promotion_does_not_lose_audio_bytes() {
    let mut file = Vec::new();
    let (mut w, start) = WavWriter::create_with_threshold(48_000, 2, 1024);
    perform(&mut file, &start);
    let pre = sine_stereo(200, 48_000, 220.0);
    let post = sine_stereo(300, 48_000, 880.0);
    let writes = w.write_frames(&bits(&pre));
    perform(&mut file, &writes);
    assert!(w.promoted());
    let writes = w.write_frames(&bits(&post));
    perform(&mut file, &writes);
    let (fin, last) = w.finalize();
    perform(&mut file, &last);

    assert!(fin.promoted_to_rf64);
    assert_eq!(fin.frame_count, 500);

    let audio = audio_of(&file);
    assert_eq!(audio.len(), 500 * 2);
    let mut expected = pre;
    expected.extend_from_slice(&post);
    for (i, (got, want)) in audio.iter().zip(expected.iter()).enumerate() {
        assert_eq!(*got, want.to_bits(), "sample {i}");
    }
}

#[test]
fn plain_riff_size_fields_match_audio_bytes() {
    let frames = sine_stereo(1000, 48_000, 440.0);
    let mut file = Vec::new();
    let (mut w, start) = WavWriter::create(48_000, 2);
    perform(&mut file, &start);
    let writes = w.write_frames(&bits(&frames));
    perform(&mut file, &writes);
    let (_, last) = w.finalize();
    perform(&mut file, &last);

    let bytes = file;
    let audio_bytes: u32 = 1000 * 2 * 4;
    assert_eq!(&bytes[0..4], b"RIFF");
    let chunk_size = u32::from_le_bytes(bytes[4..8].try_into().unwrap());
    assert_eq!(chunk_size, 72 + audio_bytes);
    let data_size = u32::from_le_bytes(bytes[76..80].try_into().unwrap());
    assert_eq!(data_size, audio_bytes);
}

#[test]
fn recorded_files_parse_back_plain_and_promoted() {
    for threshold in [DEFAULT_RF64_THRESHOLD_BYTES, 100] {
        for (rate, channels) in [(44_100, 1u16), (96_000, 2)] {
            let frames = bits(&sine_stereo(50, rate, 330.0));
            let mut file = Vec::new();
            let (mut w, start) = WavWriter::create_with_threshold(rate, channels, threshold);
            perform(&mut file, &start);
            let writes = w.write_frames(&frames);
            perform(&mut file, &writes);
            assert_eq!(w.total_bytes(), 80 + 400);
            assert_eq!(w.channels(), channels);
            let (fin, last) = w.finalize();
            perform(&mut file, &last);
            assert_eq!(fin.promoted_to_rf64, threshold == 100);
            let meta = parse_header(&file).unwrap();
            assert_eq!(
                meta,
                WavMeta { sample_rate: rate, channels, data_offset: 80, data_bytes: 400 }
            );
            assert_eq!(meta.frame_count(), 100 / u64::from(channels));
            assert_eq!(audio_of(&file), frames);
        }
    }
}

#[test]
fn an_empty_write_changes_nothing_even_past_the_threshold() {
    let (mut w, start) = WavWriter::create_with_threshold(48_000, 2, 0);
    assert_eq!(start.len(), 1);
    assert!(w.write_frames(&[]).is_empty());
    assert!(!w.promoted());
    assert_eq!(w.write_frames(&[0, 0]).len(), 3);
    assert!(w.promoted());
}

#[test]
fn header_and_chunk_bytes() {
    let h = build_initial_header(48_000, 2);
    assert_eq!(h.len() as u64, HEADER_SIZE);
    assert_eq!(&h[0..16], b"RIFF\0\0\0\0WAVEJUNK");
    assert_eq!(&h[16..20], &28u32.to_le_bytes());
    assert_eq!(&h[20..48], &[0u8; 28]);
    assert_eq!(&h[48..52], b"fmt ");
    assert_eq!(&h[52..56], &16u32.to_le_bytes());
    assert_eq!(&h[56..58], &3u16.to_le_bytes());
    assert_eq!(&h[58..60], &2u16.to_le_bytes());
    assert_eq!(&h[60..64], &48_000u32.to_le_bytes());
    assert_eq!(&h[64..68], &384_000u32.to_le_bytes());
    assert_eq!(&h[68..70], &8u16.to_le_bytes());
    assert_eq!(&h[70..72], &32u16.to_le_bytes());
    assert_eq!(&h[72..80], b"data\0\0\0\0");

    assert_eq!(riff_chunk_size(8_000), 8_072);
    assert_eq!(&build_rf64_marker(), b"RF64\xFF\xFF\xFF\xFF");
    assert_eq!(RF64_SIZE_SENTINEL, u32::MAX);

    let d = build_ds64_chunk(0x0102_0304_0506_0708, 9, u64::MAX);
    assert_eq!(&d[0..4], b"ds64");
    assert_eq!(&d[4..8], &28u32.to_le_bytes());
    assert_eq!(&d[8..16], &[8, 7, 6, 5, 4, 3, 2, 1]);
    assert_eq!(&d[16..24], &9u64.to_le_bytes());
    assert_eq!(&d[24..32], &[0xFF; 8]);
    assert_eq!(&d[32..36], &[0; 4]);
}

#[test]
fn samples_encode_as_little_endian_floats() {
    assert_eq!(encode_samples(&[1.0f32.to_bits()]), 1.0f32.to_le_bytes().to_vec());
    let mut dst = [7u32; 3];
    // Seven bytes hold one whole sample.
    assert_eq!(decode_samples(&[1, 0, 0, 0, 9, 9, 9], &mut dst, 3), 1);
    assert_eq!(dst, [1, 7, 7]);
}
