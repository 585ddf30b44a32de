//! Little-endian integers in byte sequences.
use vstd::prelude::*;

verus! {

/// The two bytes of `x`, least significant first.
pub open spec fn le16(x: u16) -> Seq<u8> {
    seq![(x % 256) as u8, (x / 256) as u8]
}

/// The four bytes of `x`, least significant first.
pub open spec fn le32(x: u32) -> Seq<u8> {
    seq![
        (x % 256) as u8,
        (x / 256 % 256) as u8,
        (x / 65_536 % 256) as u8,
        (x / 16_777_216) as u8,
    ]
}

/// The eight bytes of `x`, least significant first.
pub open spec fn le64(x: u64) -> Seq<u8> {
    le32((x % 0x1_0000_0000) as u32) + le32((x / 0x1_0000_0000) as u32)
}

/// The `u16` stored at `at`.
pub open spec fn u16_at(b: Seq<u8>, at: int) -> u16 {
    (b[at] + 256 * b[at + 1]) as u16
}

/// The `u32` stored at `at`.
pub open spec fn u32_at(b: Seq<u8>, at: int) -> u32 {
    (b[at] + 256 * b[at + 1] + 65_536 * b[at + 2] + 16_777_216 * b[at + 3]) as u32
}

/// The `u64` stored at `at`.
pub open spec fn u64_at(b: Seq<u8>, at: int) -> u64 {
    (u32_at(b, at) + 0x1_0000_0000 * u32_at(b, at + 4)) as u64
}

/// Does `b` hold `part` at `at`?
pub open spec fn holds_at(b: Seq<u8>, at: int, part: Seq<u8>) -> bool {
    0 <= at && at + part.len() <= b.len() && b.subrange(at, at + part.len()) == part
}

/// Reads the `u16` at `at`.
pub fn read_u16(b: &[u8], at: usize) -> (r: u16)
    requires
        at + 2 <= b.len(),
    ensures
        r == u16_at(b@, at as int),
{
    b[at] as u16 + 256 * (b[at + 1] as u16)
}

/// Reads the `u32` at `at`.
pub fn read_u32(b: &[u8], at: usize) -> (r: u32)
    requires
        at + 4 <= b.len(),
    ensures
        r == u32_at(b@, at as int),
{
    b[at] as u32 + 256 * (b[at + 1] as u32) + 65_536 * (b[at + 2] as u32) + 16_777_216 * (b[at
        + 3] as u32)
}

/// Reads the `u64` at `at`.
pub fn read_u64(b: &[u8], at: usize) -> (r: u64)
    requires
        at + 8 <= b.len(),
    ensures
        r == u64_at(b@, at as int),
{
    let lo: u32 = read_u32(b, at);
    let hi: u32 = read_u32(b, at + 4);
    lo as u64 + 0x1_0000_0000 * (hi as u64)
}

/// Appends the bytes of `x`.
pub fn push_u16(out: &mut Vec<u8>, x: u16)
    ensures
        final(out)@ == old(out)@ + le16(x),
{
    out.push((x % 256) as u8);
    out.push((x / 256) as u8);
    proof {
        assert(out@ =~= old(out)@ + le16(x));
    }
}

/// Appends the bytes of `x`.
pub fn push_u32(out: &mut Vec<u8>, x: u32)
    ensures
        final(out)@ == old(out)@ + le32(x),
{
    out.push((x % 256) as u8);
    out.push((x / 256 % 256) as u8);
    out.push((x / 65_536 % 256) as u8);
    out.push((x / 16_777_216) as u8);
    proof {
        assert(out@ =~= old(out)@ + le32(x));
    }
}

/// Appends the bytes of `x`.
pub fn push_u64(out: &mut Vec<u8>, x: u64)
    ensures
        final(out)@ == old(out)@ + le64(x),
{
    push_u32(out, (x % 0x1_0000_0000) as u32);
    push_u32(out, (x / 0x1_0000_0000) as u32);
    proof {
        assert(out@ =~= old(out)@ + le64(x));
    }
}

/// A two-byte integer reads back as it was written.
pub proof fn law_u16_reads_back(b: Seq<u8>, at: int, x: u16)
    requires
        holds_at(b, at, le16(x)),
    ensures
        u16_at(b, at) == x,
{
    let part = b.subrange(at, at + 2);
    assert(part[0] == b[at] && part[1] == b[at + 1]);
    assert(part == le16(x));
}

/// A four-byte integer reads back as it was written.
pub proof fn law_u32_reads_back(b: Seq<u8>, at: int, x: u32)
    requires
        holds_at(b, at, le32(x)),
    ensures
        u32_at(b, at) == x,
{
    let part = b.subrange(at, at + 4);
    assert(part[0] == b[at] && part[1] == b[at + 1] && part[2] == b[at + 2] && part[3] == b[at
        + 3]);
    assert(part == le32(x));
}

/// An eight-byte integer reads back as it was written.
pub proof fn law_u64_reads_back(b: Seq<u8>, at: int, x: u64)
    requires
        holds_at(b, at, le64(x)),
    ensures
        u64_at(b, at) == x,
{
    let lo = (x % 0x1_0000_0000) as u32;
    let hi = (x / 0x1_0000_0000) as u32;
    let part = b.subrange(at, at + 8);
    assert(part == le64(x));
    assert(b.subrange(at, at + 4) =~= part.subrange(0, 4));
    assert(b.subrange(at + 4, at + 8) =~= part.subrange(4, 8));
    assert(part.subrange(0, 4) =~= le32(lo));
    assert(part.subrange(4, 8) =~= le32(hi));
    law_u32_reads_back(b, at, lo);
    law_u32_reads_back(b, at + 4, hi);
}

/// Two-byte integers stand least significant byte first.
pub proof fn law_u16_is_little_endian(x: u16, b: Seq<u8>, at: int)
    ensures
        le16(x).len() == 2,
        le16(x)[0] + 256 * le16(x)[1] == x,
        u16_at(b, at) == b[at] + 256 * b[at + 1],
{
}

/// Four-byte integers stand least significant byte first: each byte weighs 256 times
/// as much as the one before it.
pub proof fn law_u32_is_little_endian(x: u32, b: Seq<u8>, at: int)
    ensures
        le32(x).len() == 4,
        le32(x)[0] + 256 * le32(x)[1] + 65_536 * le32(x)[2] + 16_777_216 * le32(x)[3] == x,
        u32_at(b, at) == b[at] + 256 * b[at + 1] + 65_536 * b[at + 2] + 16_777_216 * b[at + 3],
{
}

/// Eight-byte integers stand as two four-byte ones, the less significant one first.
pub proof fn law_u64_is_little_endian(x: u64, b: Seq<u8>, at: int)
    ensures
        le64(x).len() == 8,
        u32_at(le64(x), 0) + 0x1_0000_0000 * u32_at(le64(x), 4) == x,
        u64_at(b, at) == u32_at(b, at) + 0x1_0000_0000 * u32_at(b, at + 4),
{
    let lo = (x % 0x1_0000_0000) as u32;
    let hi = (x / 0x1_0000_0000) as u32;
    let d = le64(x);
    assert(d.subrange(0, 4) =~= le32(lo));
    assert(d.subrange(4, 8) =~= le32(hi));
    law_u32_reads_back(d, 0, lo);
    law_u32_reads_back(d, 4, hi);
}

} // verus!
