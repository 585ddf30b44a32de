//! Byte layout of the 80-byte header.
//!
//! ```text
//!  0..4   "RIFF"           patched to "RF64" on promotion
//!  4..8   chunk_size u32   patched at finalize, or 0xFFFFFFFF for RF64
//!  8..12  "WAVE"
//! 12..16  "JUNK"           repurposed as "ds64" on promotion
//! 16..20  body_size u32 = 28
//! 20..48  zeros            repurposed as ds64 body on promotion
//! 48..52  "fmt "
//! 52..56  fmt_size u32 = 16
//! 56..58  format_tag u16 = 0x0003 (IEEE_FLOAT)
//! 58..60  channels u16
//! 60..64  sample_rate u32
//! 64..68  byte_rate u32 = sample_rate * channels * 4
//! 68..70  block_align u16 = channels * 4
//! 70..72  bits_per_sample u16 = 32
//! 72..76  "data"
//! 76..80  data_size u32    patched at finalize, or 0xFFFFFFFF for RF64
//! ```
use crate::bytes::{
    holds_at, law_u16_reads_back, law_u32_reads_back, le16, le32, push_u16, push_u32, u16_at,
    u32_at,
};
use vstd::prelude::*;

verus! {

pub const FORMAT_TAG_IEEE_FLOAT: u16 = 0x0003;

pub const BITS_PER_SAMPLE: u16 = 32;

pub const FMT_SUBCHUNK_SIZE: u32 = 16;

pub const JUNK_RESERVED_BODY_SIZE: u32 = 28;

/// Size of the header, and so the file offset of the first sample.
pub const HEADER_SIZE: u64 = 80;

/// `"RIFF"`
pub open spec fn riff_tag() -> Seq<u8> {
    seq![0x52, 0x49, 0x46, 0x46]
}

/// `"WAVE"`
pub open spec fn wave_tag() -> Seq<u8> {
    seq![0x57, 0x41, 0x56, 0x45]
}

/// `"JUNK"`
pub open spec fn junk_tag() -> Seq<u8> {
    seq![0x4A, 0x55, 0x4E, 0x4B]
}

/// `"fmt "`
pub open spec fn fmt_tag() -> Seq<u8> {
    seq![0x66, 0x6D, 0x74, 0x20]
}

/// `"data"`
pub open spec fn data_tag() -> Seq<u8> {
    seq![0x64, 0x61, 0x74, 0x61]
}

/// The 36-byte chunk that keeps room for a `ds64` chunk.
pub open spec fn junk_chunk() -> Seq<u8> {
    junk_tag() + le32(JUNK_RESERVED_BODY_SIZE) + Seq::new(28, |i: int| 0u8)
}

/// The bytes of one frame.
pub open spec fn frame_size(channels: u16) -> int {
    channels * 4
}

/// The `fmt ` chunk and the head of the `data` chunk: 32 bytes.
pub open spec fn format_and_data_head(sample_rate: u32, channels: u16, data_size: u32) -> Seq<u8> {
    fmt_tag() + le32(FMT_SUBCHUNK_SIZE) + le16(FORMAT_TAG_IEEE_FLOAT) + le16(channels) + le32(
        sample_rate,
    ) + le32((sample_rate * frame_size(channels)) as u32) + le16(frame_size(channels) as u16)
        + le16(BITS_PER_SAMPLE) + data_tag() + le32(data_size)
}

/// A whole header: envelope, the 36 reserved bytes, format and data head.
#[verifier::opaque]
pub open spec fn header_image(
    magic: Seq<u8>,
    chunk_size: u32,
    reserve: Seq<u8>,
    sample_rate: u32,
    channels: u16,
    data_size: u32,
) -> Seq<u8> {
    magic + le32(chunk_size) + wave_tag() + reserve + format_and_data_head(
        sample_rate,
        channels,
        data_size,
    )
}

/// A header is 80 bytes long.
pub proof fn lemma_header_len(
    magic: Seq<u8>,
    chunk_size: u32,
    reserve: Seq<u8>,
    sample_rate: u32,
    channels: u16,
    data_size: u32,
)
    requires
        magic.len() == 4,
        reserve.len() == 36,
    ensures
        header_image(magic, chunk_size, reserve, sample_rate, channels, data_size).len()
            == HEADER_SIZE,
{
    reveal(header_image);
}

/// Where the parts of a header stand.
pub proof fn lemma_envelope(
    magic: Seq<u8>,
    chunk_size: u32,
    reserve: Seq<u8>,
    sample_rate: u32,
    channels: u16,
    data_size: u32,
    tail: Seq<u8>,
)
    requires
        magic.len() == 4,
        reserve.len() == 36,
    ensures
        ({
            let b = header_image(magic, chunk_size, reserve, sample_rate, channels, data_size)
                + tail;
            &&& b.len() == 80 + tail.len()
            &&& b.subrange(0, 4) == magic
            &&& holds_at(b, 4, le32(chunk_size))
            &&& b.subrange(8, 12) == wave_tag()
            &&& b.subrange(12, 48) == reserve
            &&& b.subrange(48, 80) == format_and_data_head(sample_rate, channels, data_size)
            &&& b.subrange(80, b.len() as int) == tail
        }),
{
    reveal(header_image);
    let b = header_image(magic, chunk_size, reserve, sample_rate, channels, data_size) + tail;
    assert(b.subrange(0, 4) =~= magic);
    assert(b.subrange(4, 8) =~= le32(chunk_size));
    assert(b.subrange(8, 12) =~= wave_tag());
    assert(b.subrange(12, 48) =~= reserve);
    assert(b.subrange(48, 80) =~= format_and_data_head(sample_rate, channels, data_size));
    assert(b.subrange(80, b.len() as int) =~= tail);
}

/// Where the parts of a format and data head stand.
pub proof fn lemma_format_parts(sample_rate: u32, channels: u16, data_size: u32)
    ensures
        ({
            let f = format_and_data_head(sample_rate, channels, data_size);
            &&& f.len() == 32
            &&& f.subrange(0, 4) == fmt_tag()
            &&& f.subrange(4, 8) == le32(FMT_SUBCHUNK_SIZE)
            &&& f.subrange(8, 10) == le16(FORMAT_TAG_IEEE_FLOAT)
            &&& f.subrange(10, 12) == le16(channels)
            &&& f.subrange(12, 16) == le32(sample_rate)
            &&& f.subrange(16, 20) == le32((sample_rate * frame_size(channels)) as u32)
            &&& f.subrange(20, 22) == le16(frame_size(channels) as u16)
            &&& f.subrange(22, 24) == le16(BITS_PER_SAMPLE)
            &&& f.subrange(24, 28) == data_tag()
            &&& f.subrange(28, 32) == le32(data_size)
        }),
{
    let f = format_and_data_head(sample_rate, channels, data_size);
    assert(f.subrange(0, 4) =~= fmt_tag());
    assert(f.subrange(4, 8) =~= le32(FMT_SUBCHUNK_SIZE));
    assert(f.subrange(8, 10) =~= le16(FORMAT_TAG_IEEE_FLOAT));
    assert(f.subrange(10, 12) =~= le16(channels));
    assert(f.subrange(12, 16) =~= le32(sample_rate));
    assert(f.subrange(16, 20) =~= le32((sample_rate * frame_size(channels)) as u32));
    assert(f.subrange(20, 22) =~= le16(frame_size(channels) as u16));
    assert(f.subrange(22, 24) =~= le16(BITS_PER_SAMPLE));
    assert(f.subrange(24, 28) =~= data_tag());
    assert(f.subrange(28, 32) =~= le32(data_size));
}

/// The header as it is first written: both size fields are zero.
pub open spec fn initial_header(sample_rate: u32, channels: u16) -> Seq<u8> {
    header_image(riff_tag(), 0, junk_chunk(), sample_rate, channels, 0)
}

/// Can a header describe this format? The frame size and the byte rate must fit
/// their fields.
pub open spec fn format_fits(sample_rate: u32, channels: u16) -> bool {
    &&& frame_size(channels) <= u16::MAX
    &&& sample_rate * frame_size(channels) <= u32::MAX
}

/// `buf` with `part` written over it from `at` on.
pub open spec fn overwritten(buf: Seq<u8>, at: int, part: Seq<u8>) -> Seq<u8> {
    Seq::new(buf.len(), |i: int| if at <= i < at + part.len() { part[i - at] } else { buf[i] })
}

/// Appends four bytes.
pub fn push_tag(out: &mut Vec<u8>, tag: [u8; 4])
    ensures
        final(out)@ == old(out)@ + tag@,
{
    out.push(tag[0]);
    out.push(tag[1]);
    out.push(tag[2]);
    out.push(tag[3]);
    proof {
        assert(out@ =~= old(out)@ + tag@);
    }
}

/// Appends `n` zero bytes.
pub fn push_zeros(out: &mut Vec<u8>, n: usize)
    ensures
        final(out)@ == old(out)@ + Seq::new(n as nat, |i: int| 0u8),
{
    let mut k: usize = 0;
    while k < n
        invariant
            k <= n,
            out@ == old(out)@ + Seq::new(k as nat, |i: int| 0u8),
        decreases n - k,
    {
        out.push(0);
        proof {
            assert(out@ =~= old(out)@ + Seq::new((k + 1) as nat, |i: int| 0u8));
        }
        k += 1;
    }
}

/// Writes `part` over the front of `buf`.
pub fn fill_front(buf: &mut [u8], part: &[u8])
    requires
        part@.len() <= old(buf)@.len(),
    ensures
        final(buf)@ == overwritten(old(buf)@, 0, part@),
{
    let mut i: usize = 0;
    while i < part.len()
        invariant
            i <= part@.len(),
            part@.len() <= buf@.len(),
            buf@.len() == old(buf)@.len(),
            buf@ == overwritten(old(buf)@, 0, part@.take(i as int)),
        decreases part@.len() - i,
    {
        buf[i] = part[i];
        proof {
            assert(buf@ =~= overwritten(old(buf)@, 0, part@.take(i + 1)));
        }
        i += 1;
    }
    proof {
        assert(part@.take(i as int) =~= part@);
    }
}

/// Builds the 80-byte initial header. Its size fields are placeholders, patched
/// when the file is finalized or promoted.
pub fn build_initial_header(sample_rate: u32, channels: u16) -> (h: [u8; 80])
    requires
        format_fits(sample_rate, channels),
    ensures
        h@ == initial_header(sample_rate, channels),
{
    let block_align: u16 = channels * 4;
    let byte_rate: u32 = sample_rate * (block_align as u32);

    let mut v: Vec<u8> = Vec::new();
    push_tag(&mut v, [0x52, 0x49, 0x46, 0x46]);
    push_u32(&mut v, 0);
    push_tag(&mut v, [0x57, 0x41, 0x56, 0x45]);
    push_tag(&mut v, [0x4A, 0x55, 0x4E, 0x4B]);
    push_u32(&mut v, JUNK_RESERVED_BODY_SIZE);
    push_zeros(&mut v, 28);
    push_tag(&mut v, [0x66, 0x6D, 0x74, 0x20]);
    push_u32(&mut v, FMT_SUBCHUNK_SIZE);
    push_u16(&mut v, FORMAT_TAG_IEEE_FLOAT);
    push_u16(&mut v, channels);
    push_u32(&mut v, sample_rate);
    push_u32(&mut v, byte_rate);
    push_u16(&mut v, block_align);
    push_u16(&mut v, BITS_PER_SAMPLE);
    push_tag(&mut v, [0x64, 0x61, 0x74, 0x61]);
    push_u32(&mut v, 0);
    proof {
        reveal(header_image);
        assert(v@ =~= initial_header(sample_rate, channels));
    }

    let mut h: [u8; 80] = [0u8;80];
    fill_front(&mut h, v.as_slice());
    proof {
        assert(h@ =~= v@);
    }
    h
}

/// The 32-bit `chunk_size` field of a plain RIFF file: the file's size less
/// eight, `72 + audio_bytes`.
pub fn riff_chunk_size(audio_bytes: u64) -> (r: u32)
    requires
        72 + audio_bytes <= u32::MAX,
    ensures
        r == 72 + audio_bytes,
{
    (72 + audio_bytes) as u32
}

/// What the header of every format says, by its bytes: a frame has four bytes per
/// channel, and a second as many frames as the sample rate tells.
pub proof fn law_header_tells_the_format(sample_rate: u32, channels: u16)
    requires
        channels * 4 <= 0xFFFF,
        sample_rate * (channels * 4) <= 0xFFFF_FFFF,
    ensures
        format_fits(sample_rate, channels),
        ({
            let h = initial_header(sample_rate, channels);
            &&& h.len() == 80
            &&& u32_at(h, 52) == 16
            &&& u16_at(h, 56) == 3
            &&& u16_at(h, 58) == channels
            &&& u32_at(h, 60) == sample_rate
            &&& u32_at(h, 64) == sample_rate * (channels * 4)
            &&& u16_at(h, 68) == channels * 4
            &&& u16_at(h, 70) == 32
            &&& channels == 1 ==> u32_at(h, 64) == sample_rate * 4 && u16_at(h, 68) == 4
            &&& channels == 2 ==> u32_at(h, 64) == sample_rate * 8 && u16_at(h, 68) == 8
        }),
{
    let h = initial_header(sample_rate, channels);
    lemma_header_len(riff_tag(), 0, junk_chunk(), sample_rate, channels, 0);
    assert(h.take(80) =~= h);
    lemma_header_says(h, riff_tag(), 0, junk_chunk(), sample_rate, channels, 0);
}

/// The fields of a header, read back.
pub proof fn lemma_header_says(
    b: Seq<u8>,
    magic: Seq<u8>,
    chunk_size: u32,
    reserve: Seq<u8>,
    sample_rate: u32,
    channels: u16,
    data_size: u32,
)
    requires
        magic.len() == 4,
        reserve.len() == 36,
        channels * 4 <= 0xFFFF,
        sample_rate * (channels * 4) <= 0xFFFF_FFFF,
        b.len() >= 80,
        b.take(80) == header_image(magic, chunk_size, reserve, sample_rate, channels, data_size),
    ensures
        b.subrange(0, 4) == magic,
        u32_at(b, 4) == chunk_size,
        b.subrange(8, 12) == wave_tag(),
        b.subrange(12, 48) == reserve,
        b.subrange(48, 52) == fmt_tag(),
        u32_at(b, 52) == 16,
        u16_at(b, 56) == 3,
        u16_at(b, 58) == channels,
        u32_at(b, 60) == sample_rate,
        u32_at(b, 64) == sample_rate * (channels * 4),
        u16_at(b, 68) == channels * 4,
        u16_at(b, 70) == 32,
        b.subrange(72, 76) == data_tag(),
        u32_at(b, 76) == data_size,
{
    let tail = b.skip(80);
    lemma_envelope(magic, chunk_size, reserve, sample_rate, channels, data_size, tail);
    assert(b =~= header_image(magic, chunk_size, reserve, sample_rate, channels, data_size) + tail);
    law_u32_reads_back(b, 4, chunk_size);
    lemma_format_says(b, sample_rate, channels, data_size);
}

/// The fields of a format and data head at 48, read back.
proof fn lemma_format_says(b: Seq<u8>, sample_rate: u32, channels: u16, data_size: u32)
    requires
        channels * 4 <= 0xFFFF,
        sample_rate * (channels * 4) <= 0xFFFF_FFFF,
        b.len() >= 80,
        b.subrange(48, 80) == format_and_data_head(sample_rate, channels, data_size),
    ensures
        b.subrange(48, 52) == fmt_tag(),
        u32_at(b, 52) == 16,
        u16_at(b, 56) == 3,
        u16_at(b, 58) == channels,
        u32_at(b, 60) == sample_rate,
        u32_at(b, 64) == sample_rate * (channels * 4),
        u16_at(b, 68) == channels * 4,
        u16_at(b, 70) == 32,
        b.subrange(72, 76) == data_tag(),
        u32_at(b, 76) == data_size,
{
    let f = format_and_data_head(sample_rate, channels, data_size);
    lemma_format_parts(sample_rate, channels, data_size);
    assert(b.subrange(48, 52) =~= f.subrange(0, 4));
    assert(b.subrange(52, 56) =~= f.subrange(4, 8));
    assert(b.subrange(56, 58) =~= f.subrange(8, 10));
    assert(b.subrange(58, 60) =~= f.subrange(10, 12));
    assert(b.subrange(60, 64) =~= f.subrange(12, 16));
    assert(b.subrange(64, 68) =~= f.subrange(16, 20));
    assert(b.subrange(68, 70) =~= f.subrange(20, 22));
    assert(b.subrange(70, 72) =~= f.subrange(22, 24));
    assert(b.subrange(72, 76) =~= f.subrange(24, 28));
    assert(b.subrange(76, 80) =~= f.subrange(28, 32));
    law_u32_reads_back(b, 52, FMT_SUBCHUNK_SIZE);
    law_u16_reads_back(b, 56, FORMAT_TAG_IEEE_FLOAT);
    law_u16_reads_back(b, 58, channels);
    law_u32_reads_back(b, 60, sample_rate);
    law_u32_reads_back(b, 64, (sample_rate * (channels * 4)) as u32);
    law_u16_reads_back(b, 68, (channels * 4) as u16);
    law_u16_reads_back(b, 70, BITS_PER_SAMPLE);
    law_u32_reads_back(b, 76, data_size);
}

/// A header can describe exactly the formats whose frame has up to 65 535 bytes and
/// whose second has up to 4 294 967 295, at four bytes for each sample.
pub proof fn law_formats_that_fit(sample_rate: u32, channels: u16)
    ensures
        format_fits(sample_rate, channels) <==> 4 * channels <= 65_535 && sample_rate * (channels
            * 4) <= 4_294_967_295,
        channels <= 2 && sample_rate <= 384_000 ==> format_fits(sample_rate, channels),
{
    if channels <= 2 && sample_rate <= 384_000 {
        let size = channels * 4;
        assert(sample_rate * size <= 384_000 * 8) by (nonlinear_arith)
            requires
                0 <= sample_rate <= 384_000,
                0 <= size <= 8,
        ;
    }
}

/// The reserved chunk is 36 bytes: the letters JUNK, its size 28, and zeros.
pub proof fn law_reserved_chunk_is_zeros(i: int)
    requires
        8 <= i < 36,
    ensures
        junk_chunk().len() == 36,
        junk_chunk().subrange(0, 4) == seq![0x4Au8, 0x55, 0x4E, 0x4B],
        u32_at(junk_chunk(), 4) == 28,
        junk_chunk()[i] == 0,
{
    let j = junk_chunk();
    assert(j.subrange(0, 4) =~= seq![0x4Au8, 0x55, 0x4E, 0x4B]);
    assert(j.subrange(4, 8) =~= le32(28));
    law_u32_reads_back(j, 4, 28);
}

} // verus!
