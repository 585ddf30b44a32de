//! In-place RF64 promotion.
//!
//! When a recording crosses the configured threshold, the 8-byte RIFF marker
//! becomes RF64 with a sentinel size, and the 36 reserved bytes become a `ds64`
//! chunk that carries the true 64-bit sizes. No data moves.
//!
//! ```text
//! 0..8    riff_size    u64 LE
//! 8..16   data_size    u64 LE
//! 16..24  sample_count u64 LE
//! 24..28  table_length u32 LE  (= 0: there are no extra chunks)
//! ```
use super::header::{fill_front, push_tag};
use crate::bytes::{le32, le64, push_u32, push_u64};
use vstd::prelude::*;

verus! {

/// Size of the `ds64` body.
pub const DS64_BODY_SIZE: u32 = 28;

/// What the legacy 32-bit size fields of a promoted file hold. The real sizes
/// stand in the `ds64` body.
pub const RF64_SIZE_SENTINEL: u32 = 0xFFFF_FFFF;

/// `"RF64"`
pub open spec fn rf64_tag() -> Seq<u8> {
    seq![0x52, 0x46, 0x36, 0x34]
}

/// `"ds64"`
pub open spec fn ds64_tag() -> Seq<u8> {
    seq![0x64, 0x73, 0x36, 0x34]
}

/// The marker that replaces `RIFF` and its size field.
pub open spec fn rf64_marker() -> Seq<u8> {
    rf64_tag() + le32(RF64_SIZE_SENTINEL)
}

/// The 36-byte `ds64` chunk.
pub open spec fn ds64_chunk(riff_size: u64, data_size: u64, sample_count: u64) -> Seq<u8> {
    ds64_tag() + le32(DS64_BODY_SIZE) + le64(riff_size) + le64(data_size) + le64(sample_count)
        + le32(0)
}

/// Builds the 8-byte marker that overwrites the start of the file.
pub fn build_rf64_marker() -> (m: [u8; 8])
    ensures
        m@ == rf64_marker(),
{
    let mut v: Vec<u8> = Vec::new();
    push_tag(&mut v, [0x52, 0x46, 0x36, 0x34]);
    push_u32(&mut v, RF64_SIZE_SENTINEL);
    let mut m: [u8; 8] = [0u8;8];
    fill_front(&mut m, v.as_slice());
    proof {
        assert(v@ =~= rf64_marker());
        assert(m@ =~= v@);
    }
    m
}

/// Builds the 36-byte `ds64` chunk that overwrites the reserved bytes at file
/// offset 12.
pub fn build_ds64_chunk(riff_size: u64, data_size: u64, sample_count: u64) -> (buf: [u8; 36])
    ensures
        buf@ == ds64_chunk(riff_size, data_size, sample_count),
{
    let mut v: Vec<u8> = Vec::new();
    push_tag(&mut v, [0x64, 0x73, 0x36, 0x34]);
    push_u32(&mut v, DS64_BODY_SIZE);
    push_u64(&mut v, riff_size);
    push_u64(&mut v, data_size);
    push_u64(&mut v, sample_count);
    push_u32(&mut v, 0);
    let mut buf: [u8; 36] = [0u8;36];
    fill_front(&mut buf, v.as_slice());
    proof {
        assert(v@ =~= ds64_chunk(riff_size, data_size, sample_count));
        assert(buf@ =~= v@);
    }
    buf
}

} // verus!
