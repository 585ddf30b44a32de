//! Single-precision samples as bit patterns.
//!
//! A sample is the `u32` that `f32::to_bits` gives. With the sign bit off, the
//! bit patterns of the numbers from zero to infinity are ordered as the numbers
//! are, so the largest magnitude in a buffer is the largest of these integers.
use crate::bytes::{le32, push_u32, read_u32, u32_at};
use vstd::prelude::*;

verus! {

/// Weight of the sign bit.
pub const SIGN: u32 = 0x8000_0000;

/// The bit pattern of positive infinity: the first magnitude that is not finite.
pub const INFINITY_BITS: u32 = 0x7F80_0000;

/// The bit pattern of `0.0`.
pub const ZERO_BITS: u32 = 0;

/// The sample with its sign bit off.
pub open spec fn unsigned_bits(s: u32) -> u32 {
    (s % SIGN) as u32
}

/// Is the sample neither an infinity nor a NaN?
pub open spec fn is_finite(s: u32) -> bool {
    unsigned_bits(s) < INFINITY_BITS
}

/// The sample that reaches the file: itself, or zero where it is not finite.
pub open spec fn sanitized(s: u32) -> u32 {
    if is_finite(s) {
        s
    } else {
        ZERO_BITS
    }
}

/// The samples that reach the file.
pub open spec fn all_sanitized(s: Seq<u32>) -> Seq<u32> {
    Seq::new(s.len(), |i: int| sanitized(s[i]))
}

/// Are all samples finite?
pub open spec fn all_finite(s: Seq<u32>) -> bool {
    forall|i: int| 0 <= i < s.len() ==> is_finite(#[trigger] s[i])
}

/// Is the sample neither an infinity nor a NaN?
pub fn finite(s: u32) -> (r: bool)
    ensures
        r == is_finite(s),
{
    s % SIGN < INFINITY_BITS
}

/// The sample that reaches the file.
pub fn sanitize(s: u32) -> (r: u32)
    ensures
        r == sanitized(s),
{
    if finite(s) {
        s
    } else {
        ZERO_BITS
    }
}

/// The bytes of `s` on disk, four per sample, least significant first.
pub open spec fn sample_bytes(s: Seq<u32>) -> Seq<u8> {
    Seq::new(4 * s.len(), |i: int| le32(s[i / 4])[i % 4])
}

/// The `n` samples stored from byte `at` on.
pub open spec fn samples_at(b: Seq<u8>, at: int, n: nat) -> Seq<u32> {
    Seq::new(n, |i: int| u32_at(b, at + 4 * i))
}

/// The bytes of `samples` on disk.
pub fn encode_samples(samples: &[u32]) -> (r: Vec<u8>)
    ensures
        r@ == sample_bytes(samples@),
{
    let mut out: Vec<u8> = Vec::new();
    let mut i: usize = 0;
    while i < samples.len()
        invariant
            i <= samples@.len(),
            out@ == sample_bytes(samples@.take(i as int)),
        decreases samples@.len() - i,
    {
        push_u32(&mut out, samples[i]);
        proof {
            assert(out@ =~= sample_bytes(samples@.take(i + 1)));
        }
        i += 1;
    }
    proof {
        assert(samples@.take(i as int) =~= samples@);
    }
    out
}

/// The whole samples that `bytes` holds, at most `limit` of them, written to the
/// front of `dst`; returns their number.
pub fn decode_samples(bytes: &[u8], dst: &mut [u32], limit: usize) -> (n: usize)
    requires
        limit <= old(dst)@.len(),
    ensures
        n == if bytes@.len() / 4 < limit { bytes@.len() / 4 } else { limit as nat },
        final(dst)@ == samples_at(bytes@, 0, n as nat) + old(dst)@.skip(n as int),
{
    let whole: usize = bytes.len() / 4;
    let n: usize = if whole < limit {
        whole
    } else {
        limit
    };
    let mut i: usize = 0;
    while i < n
        invariant
            i <= n,
            n <= limit,
            limit <= dst@.len(),
            4 * n <= bytes.len(),
            old(dst)@.len() == dst@.len(),
            dst@ == samples_at(bytes@, 0, i as nat) + old(dst)@.skip(i as int),
        decreases n - i,
    {
        dst[i] = read_u32(bytes, 4 * i);
        proof {
            assert(dst@ =~= samples_at(bytes@, 0, (i + 1) as nat) + old(dst)@.skip(i + 1));
        }
        i += 1;
    }
    n
}

/// Samples read back bit for bit as they were written.
pub proof fn law_samples_read_back(s: Seq<u32>)
    ensures
        samples_at(sample_bytes(s), 0, s.len()) == s,
{
    assert forall|i: int| 0 <= i < s.len() implies #[trigger] samples_at(sample_bytes(s), 0, s.len())[i]
        == s[i] by {
        let b = sample_bytes(s);
        assert(b[4 * i] == le32(s[i])[0]);
        assert(b[4 * i + 1] == le32(s[i])[1]);
        assert(b[4 * i + 2] == le32(s[i])[2]);
        assert(b[4 * i + 3] == le32(s[i])[3]);
    }
    assert(samples_at(sample_bytes(s), 0, s.len()) =~= s);
}

/// Writing two runs of samples one after the other is writing their
/// concatenation.
pub proof fn law_sample_bytes_concatenate(a: Seq<u32>, b: Seq<u32>)
    ensures
        sample_bytes(a + b) == sample_bytes(a) + sample_bytes(b),
{
    assert(sample_bytes(a + b) =~= sample_bytes(a) + sample_bytes(b));
}

/// A sample is finite exactly where its eight exponent bits are not all set, and it
/// reaches the file unchanged where it is finite, and as zero where it is not.
pub proof fn law_exponent_tells_finite_samples(s: u32)
    ensures
        is_finite(s) <==> s / 0x0080_0000 % 256 != 255,
        s / 0x0080_0000 % 256 != 255 ==> sanitized(s) == s,
        s / 0x0080_0000 % 256 == 255 ==> sanitized(s) == 0,
{
}

/// Samples stand one after another on disk, four bytes each, least significant byte
/// first.
pub proof fn law_samples_are_four_bytes_each(s: Seq<u32>, i: int, b: Seq<u8>, at: int, n: nat)
    requires
        0 <= i < s.len(),
        i < n,
        0 <= at,
        at + 4 * n <= b.len(),
    ensures
        sample_bytes(s).len() == 4 * s.len(),
        s[i] == sample_bytes(s)[4 * i] + 256 * sample_bytes(s)[4 * i + 1] + 65_536 * sample_bytes(
            s,
        )[4 * i + 2] + 16_777_216 * sample_bytes(s)[4 * i + 3],
        samples_at(b, at, n).len() == n,
        samples_at(b, at, n)[i] == b[at + 4 * i] + 256 * b[at + 4 * i + 1] + 65_536 * b[at + 4 * i
            + 2] + 16_777_216 * b[at + 4 * i + 3],
{
    let x = s[i];
    let d = sample_bytes(s);
    assert(d[4 * i] == le32(x)[0]);
    assert(d[4 * i + 1] == le32(x)[1]);
    assert(d[4 * i + 2] == le32(x)[2]);
    assert(d[4 * i + 3] == le32(x)[3]);
    assert(le32(x)[0] + 256 * le32(x)[1] + 65_536 * le32(x)[2] + 16_777_216 * le32(x)[3] == x);
}

} // verus!
