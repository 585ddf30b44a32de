//! The header parser.
use octave::player::wav::{parse_header, HeaderParser, ParseError};

const FORMAT_TAG_IEEE_FLOAT: u16 = 0x0003;
const RF64_SIZE_SENTINEL: u32 = 0xFFFF_FFFF;

fn build_riff_with_audio(sample_rate: u32, channels: u16, audio: &[u8]) -> Vec<u8> {
    let mut h = Vec::with_capacity(80 + audio.len());
    let block_align: u16 = channels * 4;
    let byte_rate: u32 = sample_rate * u32::from(block_align);
    let data_size: u32 = u32::try_from(audio.len()).unwrap();
    let chunk_size: u32 = 72 + data_size;

    h.extend_from_slice(b"RIFF");
    h.extend_from_slice(&chunk_size.to_le_bytes());
    h.extend_from_slice(b"WAVE");
    h.extend_from_slice(b"JUNK");
    h.extend_from_slice(&28u32.to_le_bytes());
    h.extend_from_slice(&[0u8; 28]);
    h.extend_from_slice(b"fmt ");
    h.extend_from_slice(&16u32.to_le_bytes());
    h.extend_from_slice(&FORMAT_TAG_IEEE_FLOAT.to_le_bytes());
    h.extend_from_slice(&channels.to_le_bytes());
    h.extend_from_slice(&sample_rate.to_le_bytes());
    h.extend_from_slice(&byte_rate.to_le_bytes());
    h.extend_from_slice(&block_align.to_le_bytes());
    h.extend_from_slice(&32u16.to_le_bytes());
    h.extend_from_slice(b"data");
    h.extend_from_slice(&data_size.to_le_bytes());
    h.extend_from_slice(audio);
    h
}

fn build_rf64_with_audio(sample_rate: u32, channels: u16, audio: &[u8]) -> Vec<u8> {
    let mut h = Vec::with_capacity(80 + audio.len());
    let block_align: u16 = channels * 4;
    let byte_rate: u32 = sample_rate * u32::from(block_align);
    let data_size: u64 = audio.len() as u64;
    let frames: u64 = data_size / u64::from(block_align);
    let riff_size: u64 = 72 + data_size;

    h.extend_from_slice(b"RF64");
    h.extend_from_slice(&RF64_SIZE_SENTINEL.to_le_bytes());
    h.extend_from_slice(b"WAVE");
    h.extend_from_slice(b"ds64");
    h.extend_from_slice(&28u32.to_le_bytes());
    h.extend_from_slice(&riff_size.to_le_bytes());
    h.extend_from_slice(&data_size.to_le_bytes());
    h.extend_from_slice(&frames.to_le_bytes());
    h.extend_from_slice(&0u32.to_le_bytes());
    h.extend_from_slice(b"fmt ");
    h.extend_from_slice(&16u32.to_le_bytes());
    h.extend_from_slice(&FORMAT_TAG_IEEE_FLOAT.to_le_bytes());
    h.extend_from_slice(&channels.to_le_bytes());
    h.extend_from_slice(&sample_rate.to_le_bytes());
    h.extend_from_slice(&byte_rate.to_le_bytes());
    h.extend_from_slice(&block_align.to_le_bytes());
    h.extend_from_slice(&32u16.to_le_bytes());
    h.extend_from_slice(b"data");
    h.extend_from_slice(&RF64_SIZE_SENTINEL.to_le_bytes());
    h.extend_from_slice(audio);
    h
}

#[test]
fn parses_recorder_layout_riff_stereo_48k() {
    let audio: Vec<u8> = (0..16).flat_map(|i: u32| (i as f32).to_le_bytes()).collect();
    let bytes = build_riff_with_audio(48_000, 2, &audio);
    let meta = parse_header(&bytes).unwrap();
    assert_eq!(meta.sample_rate, 48_000);
    assert_eq!(meta.channels, 2);
    assert_eq!(meta.data_offset, 80);
    assert_eq!(meta.data_bytes, audio.len() as u64);
    assert_eq!(meta.frame_count(), 8);
}

#[test]
fn parses_rf64_layout_with_ds64_data_size() {
    let audio: Vec<u8> = (0..40).flat_map(|i: u32| (i as f32).to_le_bytes()).collect();
    let bytes = build_rf64_with_audio(96_000, 2, &audio);
    let meta = parse_header(&bytes).unwrap();
    assert_eq!(meta.sample_rate, 96_000);
    assert_eq!(meta.channels, 2);
    assert_eq!(meta.data_offset, 80);
    assert_eq!(meta.data_bytes, audio.len() as u64);
}

#[test]
fn rejects_wrong_magic() {
    let bytes = b"WAVEjunkjunkjunkjunk".to_vec();
    let err = parse_header(&bytes).unwrap_err();
    assert!(matches!(err, ParseError::NotWav(_)));
    assert_eq!(
        err.message(),
        "not a WAVE file: magic = [87, 65, 86, 69], expected RIFF or RF64"
    );
}

#[test]
fn rejects_non_float_format_tag() {
    let mut bytes = build_riff_with_audio(48_000, 2, &[]);
    bytes[56..58].copy_from_slice(&1u16.to_le_bytes());
    let err = parse_header(&bytes).unwrap_err();
    assert!(matches!(err, ParseError::Unsupported(_)), "got {err:?}");
    assert_eq!(
        err,
        ParseError::Unsupported(
            "format_tag = 0x0001, expected IEEE_FLOAT (0x0003) or EXTENSIBLE (0xFFFE)".to_string()
        )
    );
}

#[test]
fn rejects_non_32_bit_format() {
    let mut bytes = build_riff_with_audio(48_000, 2, &[]);
    bytes[70..72].copy_from_slice(&16u16.to_le_bytes());
    let err = parse_header(&bytes).unwrap_err();
    assert!(matches!(err, ParseError::Unsupported(_)));
    assert_eq!(err.message(), "unsupported WAVE format: bits_per_sample = 16, expected 32");
}

#[test]
fn rejects_truncated_header() {
    let bytes = b"RIFF\x00\x00\x00\x00WAV".to_vec();
    assert!(parse_header(&bytes).is_err());
    assert_eq!(
        parse_header(&bytes).unwrap_err(),
        ParseError::Io("failed to fill whole buffer".to_string())
    );
}

#[test]
fn rejects_data_bytes_not_whole_frames() {
    let audio = vec![0u8; 10];
    let bytes = build_riff_with_audio(48_000, 2, &audio);
    let err = parse_header(&bytes).unwrap_err();
    assert!(matches!(err, ParseError::NotWav(_)));
    assert_eq!(
        err,
        ParseError::NotWav("data_bytes 10 is not a whole number of 2-channel frames".to_string())
    );
}

#[test]
fn skips_unknown_chunks_before_data() {
    let mut h = Vec::new();
    let audio: Vec<u8> = (0..8).flat_map(|i: u32| (i as f32).to_le_bytes()).collect();
    h.extend_from_slice(b"RIFF");
    h.extend_from_slice(&0u32.to_le_bytes());
    h.extend_from_slice(b"WAVE");
    h.extend_from_slice(b"fmt ");
    h.extend_from_slice(&16u32.to_le_bytes());
    h.extend_from_slice(&FORMAT_TAG_IEEE_FLOAT.to_le_bytes());
    h.extend_from_slice(&2u16.to_le_bytes());
    h.extend_from_slice(&48_000u32.to_le_bytes());
    h.extend_from_slice(&(48_000u32 * 8).to_le_bytes());
    h.extend_from_slice(&8u16.to_le_bytes());
    h.extend_from_slice(&32u16.to_le_bytes());
    h.extend_from_slice(b"bext");
    h.extend_from_slice(&5u32.to_le_bytes());
    h.extend_from_slice(&[0u8, 1, 2, 3, 4]);
    h.push(0u8);
    h.extend_from_slice(b"data");
    h.extend_from_slice(&u32::try_from(audio.len()).unwrap().to_le_bytes());
    h.extend_from_slice(&audio);

    let meta = parse_header(&h).unwrap();
    assert_eq!(meta.channels, 2);
    assert_eq!(meta.frame_count(), 4);
}

fn chunk(id: &[u8; 4], body: &[u8]) -> Vec<u8> {
    let mut c = id.to_vec();
    c.extend_from_slice(&(body.len() as u32).to_le_bytes());
    c.extend_from_slice(body);
    if body.len() % 2 == 1 {
        c.push(0);
    }
    c
}

fn riff(chunks: &[Vec<u8>]) -> Vec<u8> {
    let mut b = b"RIFF\0\0\0\0WAVE".to_vec();
    for c in chunks {
        b.extend_from_slice(c);
    }
    b
}

fn fmt_body(tag: u16, channels: u16, rate: u32) -> Vec<u8> {
    let mut f = Vec::new();
    f.extend_from_slice(&tag.to_le_bytes());
    f.extend_from_slice(&channels.to_le_bytes());
    f.extend_from_slice(&rate.to_le_bytes());
    f.extend_from_slice(&[0; 6]);
    f.extend_from_slice(&32u16.to_le_bytes());
    f
}

fn not_wav(text: &str) -> ParseError {
    ParseError::NotWav(text.to_string())
}

#[test]
fn each_malformed_header_gets_its_own_error() {
    assert_eq!(
        parse_header(b"RI").unwrap_err(),
        ParseError::Io("failed to fill whole buffer".to_string())
    );
    assert_eq!(
        parse_header(b"RF64\0\0\0\0WAVE").unwrap_err(),
        not_wav("RF64 chunk_size field is not 0xFFFFFFFF sentinel")
    );
    assert_eq!(
        parse_header(b"RIFF\0\0\0\0AVI ").unwrap_err(),
        not_wav("form = [65, 86, 73, 32], expected WAVE")
    );
    assert_eq!(
        parse_header(&riff(&[])).unwrap_err(),
        not_wav("end of file before data chunk: failed to fill whole buffer")
    );
    assert_eq!(
        parse_header(&riff(&[b"fmt ".to_vec()])).unwrap_err(),
        ParseError::Io("failed to fill whole buffer".to_string())
    );
    assert_eq!(
        parse_header(&riff(&[chunk(b"ds64", &[0; 28])])).unwrap_err(),
        not_wav("ds64 chunk in non-RF64 file")
    );
    assert_eq!(
        parse_header(&riff(&[chunk(b"fmt ", &[0; 15])])).unwrap_err(),
        not_wav("fmt size 15 < 16")
    );
    assert_eq!(
        parse_header(&riff(&[chunk(b"data", &[0; 8])])).unwrap_err(),
        not_wav("no fmt chunk before data")
    );
    assert_eq!(
        parse_header(&riff(&[chunk(b"fmt ", &fmt_body(3, 0, 48_000)), chunk(b"data", &[])]))
            .unwrap_err(),
        not_wav("data_bytes 0 is not a whole number of 0-channel frames")
    );
    let mut rf64 = b"RF64\xFF\xFF\xFF\xFFWAVE".to_vec();
    let mut short = rf64.clone();
    short.extend_from_slice(&chunk(b"ds64", &[0; 20]));
    assert_eq!(parse_header(&short).unwrap_err(), not_wav("ds64 size 20 < 28"));
    rf64.extend_from_slice(&chunk(b"fmt ", &fmt_body(3, 1, 48_000)));
    rf64.extend_from_slice(b"data\xFF\xFF\xFF\xFF");
    assert_eq!(
        parse_header(&rf64).unwrap_err(),
        not_wav("RF64 data chunk uses sentinel size but no ds64 chunk seen")
    );
}

#[test]
fn extensible_formats_need_the_float_subtype() {
    let guid = [
        0x03, 0x00, 0x00, 0x00, 0x00, 0x00, 0x10, 0x00, 0x80, 0x00, 0x00, 0xAA, 0x00, 0x38, 0x9B,
        0x71,
    ];
    let mut body = fmt_body(0xFFFE, 2, 48_000);
    body.extend_from_slice(&[0; 8]);
    body.extend_from_slice(&guid);
    let good = riff(&[chunk(b"fmt ", &body), chunk(b"data", &[0; 16])]);
    let meta = parse_header(&good).unwrap();
    assert_eq!((meta.sample_rate, meta.channels, meta.data_offset), (48_000, 2, 68));

    let mut other = body.clone();
    other[39] = 0;
    let err = parse_header(&riff(&[chunk(b"fmt ", &other)])).unwrap_err();
    assert_eq!(
        err.message(),
        "unsupported WAVE format: EXTENSIBLE subtype is not KSDATAFORMAT_SUBTYPE_IEEE_FLOAT"
    );
    let err = parse_header(&riff(&[chunk(b"fmt ", &body[..38])])).unwrap_err();
    assert_eq!(err.message(), "unsupported WAVE format: EXTENSIBLE fmt size 38 < 40");
}

#[test]
fn the_parser_asks_for_what_it_needs_and_passes_read_errors_on() {
    let file = riff(&[chunk(b"LIST", &[0; 1_000_001]), chunk(b"fmt ", &fmt_body(3, 1, 44_100))]);
    let mut parser = HeaderParser::new();
    let mut asked = Vec::new();
    let result = loop {
        let (offset, len) = parser.request();
        asked.push((offset, len));
        let at = offset as usize;
        let read = if at + len <= file.len() {
            Ok(file[at..at + len].to_vec())
        } else {
            Err("disk on fire".to_string())
        };
        if let Some(r) = parser.feed(read) {
            break r;
        }
    };
    assert_eq!(
        result.unwrap_err(),
        not_wav("end of file before data chunk: disk on fire")
    );
    assert_eq!(
        asked,
        vec![
            (0, 4),
            (4, 4),
            (8, 4),
            (12, 4),
            (16, 4),
            (1_000_022, 4),
            (1_000_026, 4),
            (1_000_030, 16),
            (1_000_046, 4)
        ]
    );
    let mut parser = HeaderParser::new();
    assert_eq!(
        parser.feed(Err("gone".to_string())).unwrap().unwrap_err(),
        ParseError::Io("gone".to_string())
    );
}
