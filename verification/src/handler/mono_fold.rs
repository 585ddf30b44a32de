//! Folding a stereo take to mono: the right channel becomes the left one.
use crate::bytes::{holds_at, le16, le32};
use crate::recorder::wav::header::{
    data_tag, fmt_tag, format_and_data_head, format_fits, header_image, junk_chunk,
    lemma_envelope, lemma_format_parts, lemma_header_len, riff_tag, wave_tag,
};
use crate::recorder::wav::rf64::{ds64_chunk, rf64_tag, RF64_SIZE_SENTINEL};
use crate::recorder::wav::{rf64_image, riff_image};
use crate::samples::sample_bytes;
use vstd::prelude::*;
use vstd::string::*;

verus! {

/// Does the `data` tag stand at `i`?
pub open spec fn data_at(b: Seq<u8>, i: int) -> bool {
    0 <= i && i + 4 <= b.len() && b.subrange(i, i + 4) == data_tag()
}

/// Does the `data` tag stand first at `i`?
pub open spec fn first_data(b: Seq<u8>, i: int) -> bool {
    data_at(b, i) && forall|k: int| 0 <= k < i ==> !data_at(b, k)
}

/// `b` with the right sample of each whole stereo frame from `start` on replaced
/// by the left one.
pub open spec fn folded_from(b: Seq<u8>, start: int) -> Seq<u8> {
    Seq::new(
        b.len(),
        |i: int|
            if i >= start && (i - start) % 8 >= 4 && i - (i - start) % 8 + 8 <= b.len() {
                b[i - 4]
            } else {
                b[i]
            },
    )
}

/// Does the `data` tag stand at `i`?
fn is_data_at(b: &[u8], i: usize) -> (r: bool)
    requires
        i + 4 <= b.len(),
    ensures
        r == data_at(b@, i as int),
{
    let r: bool = b[i] == 0x64 && b[i + 1] == 0x61 && b[i + 2] == 0x74 && b[i + 3] == 0x61;
    proof {
        let part = b@.subrange(i as int, i + 4);
        assert(part[0] == b@[i as int] && part[1] == b@[i + 1] && part[2] == b@[i + 2] && part[3]
            == b@[i + 3]);
        if r {
            assert(part =~= data_tag());
        }
    }
    r
}

/// Where the `data` tag stands first.
fn find_data(b: &[u8]) -> (r: Option<usize>)
    ensures
        match r {
            Some(i) => first_data(b@, i as int),
            None => forall|i: int| !data_at(b@, i),
        },
{
    if b.len() < 4 {
        return None;
    }
    let last: usize = b.len() - 4;
    let mut i: usize = 0;
    loop
        invariant
            last == b.len() - 4,
            b.len() >= 4,
            i <= last,
            forall|k: int| 0 <= k < i ==> !data_at(b@, k),
        decreases last - i,
    {
        if is_data_at(b, i) {
            return Some(i);
        }
        if i == last {
            return None;
        }
        i += 1;
    }
}

/// Folds a 32-bit float stereo WAV to mono: in each frame behind the head of the
/// first `data` chunk the right sample becomes the left one. An incomplete last
/// frame stays as it is.
pub fn fold_stereo_to_mono_left(bytes: Vec<u8>) -> (r: Result<Vec<u8>, String>)
    ensures
        match r {
            Ok(v) => exists|i: int| #[trigger]
                first_data(bytes@, i) && v@ == folded_from(bytes@, i + 8),
            Err(m) => (forall|i: int| !data_at(bytes@, i)) && m@ == "no data chunk"@,
        },
{
    let idx: usize = match find_data(bytes.as_slice()) {
        None => {
            return Err("no data chunk".to_owned());
        },
        Some(i) => i,
    };
    let ghost start = idx + 8;
    let mut out: Vec<u8> = bytes;
    let n: usize = out.len();
    if n - idx >= 8 {
        let mut i: usize = idx + 8;
        while n - i >= 8
            invariant
                n == out@.len(),
                n == bytes@.len(),
                start <= i <= n,
                (i - start) % 8 == 0,
                forall|k: int|
                    0 <= k < n ==> #[trigger] out@[k] == if k < i {
                        folded_from(bytes@, start)[k]
                    } else {
                        bytes@[k]
                    },
            decreases n - i,
        {
            let ghost before = out@;
            out[i + 4] = out[i];
            out[i + 5] = out[i + 1];
            out[i + 6] = out[i + 2];
            out[i + 7] = out[i + 3];
            proof {
                assert forall|k: int| 0 <= k < n implies #[trigger] out@[k] == if k < i + 8 {
                    folded_from(bytes@, start)[k]
                } else {
                    bytes@[k]
                } by {
                    assert(before[k] == if k < i {
                        folded_from(bytes@, start)[k]
                    } else {
                        bytes@[k]
                    });
                    assert(before[i as int] == bytes@[i as int]);
                    assert(before[i + 1] == bytes@[i + 1]);
                    assert(before[i + 2] == bytes@[i + 2]);
                    assert(before[i + 3] == bytes@[i + 3]);
                    if i <= k < i + 8 {
                        assert((k - start) % 8 == k - i);
                    }
                }
            }
            i += 8;
        }
        proof {
            assert forall|k: int| i <= k < n implies folded_from(bytes@, start)[k]
                == bytes@[k] by {
                assert((k - start) % 8 == k - i);
            }
        }
    }
    proof {
        assert(out@ =~= folded_from(bytes@, start));
        assert(first_data(bytes@, idx as int));
    }
    Ok(out)
}

/// Stereo samples with the left one of each frame in both places.
pub open spec fn both_left(samples: Seq<u32>) -> Seq<u32> {
    Seq::new(samples.len(), |k: int| samples[k - k % 2])
}

/// Folding stereo samples behind any head gives the same head with the left
/// sample of each frame in both places.
pub proof fn law_fold_plays_left_on_both_sides(head: Seq<u8>, samples: Seq<u32>)
    requires
        samples.len() % 2 == 0,
    ensures
        folded_from(head + sample_bytes(samples), head.len() as int) == head + sample_bytes(
            both_left(samples),
        ),
{
    let start = head.len() as int;
    let audio = sample_bytes(samples);
    let b = head + audio;
    let f = folded_from(b, start);
    let g = sample_bytes(both_left(samples));
    assert forall|i: int| 0 <= i < audio.len() implies f[start + i] == #[trigger] g[i] by {
        let k = i / 4;
        let t = i % 4;
        let j = k - k % 2;
        assert(i == 4 * k + t);
        assert(i % 8 == 4 * (k % 2) + t);
        assert(g[i] == le32(samples[j])[t]);
        assert((4 * j + t) / 4 == j && (4 * j + t) % 4 == t);
        assert(audio[4 * j + t] == le32(samples[j])[t]);
        assert(b[start + 4 * j + t] == audio[4 * j + t]);
        assert(b[start + i] == audio[i]);
    }
    assert(f =~= head + g);
}

/// A finished stereo take, plain or RF64, folded from byte 80 on, where its
/// samples begin, is the take whose right channel is the left one.
pub proof fn law_folded_take_is_a_take(sample_rate: u32, samples: Seq<u32>)
    requires
        samples.len() % 2 == 0,
    ensures
        folded_from(riff_image(sample_rate, 2, samples), 80) == riff_image(
            sample_rate,
            2,
            both_left(samples),
        ),
        folded_from(rf64_image(sample_rate, 2, samples), 80) == rf64_image(
            sample_rate,
            2,
            both_left(samples),
        ),
{
    let bytes = 4 * samples.len();
    let plain = header_image(
        riff_tag(),
        (72 + bytes) as u32,
        junk_chunk(),
        sample_rate,
        2,
        bytes as u32,
    );
    let ds64 = ds64_chunk((72 + bytes) as u64, bytes as u64, (samples.len() / 2) as u64);
    let promoted = header_image(
        rf64_tag(),
        RF64_SIZE_SENTINEL,
        ds64,
        sample_rate,
        2,
        RF64_SIZE_SENTINEL,
    );
    lemma_header_len(
        riff_tag(),
        (72 + bytes) as u32,
        junk_chunk(),
        sample_rate,
        2,
        bytes as u32,
    );
    lemma_header_len(
        rf64_tag(),
        RF64_SIZE_SENTINEL,
        ds64,
        sample_rate,
        2,
        RF64_SIZE_SENTINEL,
    );
    law_fold_plays_left_on_both_sides(plain, samples);
    law_fold_plays_left_on_both_sides(promoted, samples);
}

/// No byte of the reserved chunk is a `d`.
proof fn lemma_reserve_has_no_d()
    ensures
        junk_chunk().len() == 36,
        forall|k: int| 0 <= k < 36 ==> #[trigger] junk_chunk()[k] != 0x64,
{
}

/// The low byte of a multiple of eight is one.
proof fn lemma_low_byte(x: u32)
    requires
        x % 8 == 0,
    ensures
        le32(x)[0] % 8 == 0,
{
}

/// The bytes of a stereo format chunk that could be mistaken for the `data` tag's.
#[verifier::opaque]
spec fn no_tag_in_format(f: Seq<u8>) -> bool {
    &&& forall|k: int| 0 <= k < 12 ==> #[trigger] f[k] != 0x64
    &&& f[15] < 0x61
    &&& f[16] % 8 == 0
    &&& f[20] == 8
    &&& f[21] == 0
    &&& f[22] == 32
    &&& f[23] == 0
}

proof fn lemma_stereo_format(sample_rate: u32, data_size: u32)
    requires
        format_fits(sample_rate, 2),
    ensures
        format_and_data_head(sample_rate, 2, data_size).len() == 32,
        format_and_data_head(sample_rate, 2, data_size).subrange(24, 28) == data_tag(),
        no_tag_in_format(format_and_data_head(sample_rate, 2, data_size)),
{
    lemma_format_parts(sample_rate, 2, data_size);
    lemma_format_bytes(format_and_data_head(sample_rate, 2, data_size), sample_rate);
}

proof fn lemma_format_bytes(f: Seq<u8>, sample_rate: u32)
    requires
        format_fits(sample_rate, 2),
        f.len() == 32,
        f.subrange(0, 4) == fmt_tag(),
        f.subrange(4, 8) == le32(16),
        f.subrange(8, 10) == le16(3),
        f.subrange(10, 12) == le16(2),
        f.subrange(12, 16) == le32(sample_rate),
        f.subrange(16, 20) == le32((sample_rate * 8) as u32),
        f.subrange(20, 22) == le16(8),
        f.subrange(22, 24) == le16(32),
    ensures
        no_tag_in_format(f),
{
    reveal(no_tag_in_format);
    lemma_low_byte((sample_rate * 8) as u32);
    assert(f.subrange(0, 4)[0] == f[0] && f.subrange(0, 4)[1] == f[1] && f.subrange(0, 4)[2] == f[2]
        && f.subrange(0, 4)[3] == f[3]);
    assert(f.subrange(4, 8)[0] == f[4] && f.subrange(4, 8)[1] == f[5] && f.subrange(4, 8)[2] == f[6]
        && f.subrange(4, 8)[3] == f[7]);
    assert(f.subrange(8, 10)[0] == f[8] && f.subrange(8, 10)[1] == f[9]);
    assert(f.subrange(10, 12)[0] == f[10] && f.subrange(10, 12)[1] == f[11]);
    assert(f.subrange(12, 16)[3] == f[15]);
    assert(f.subrange(16, 20)[0] == f[16]);
    assert(f.subrange(20, 22)[0] == f[20] && f.subrange(20, 22)[1] == f[21]);
    assert(f.subrange(22, 24)[0] == f[22] && f.subrange(22, 24)[1] == f[23]);
}

/// In a finished plain stereo take the `data` tag stands first at byte 72, so the
/// fold begins with the samples, at byte 80.
pub proof fn law_fold_begins_with_the_samples(sample_rate: u32, samples: Seq<u32>)
    requires
        format_fits(sample_rate, 2),
        samples.len() % 2 == 0,
        72 + 4 * samples.len() <= u32::MAX,
    ensures
        first_data(riff_image(sample_rate, 2, samples), 72),
{
    let bytes = 4 * samples.len();
    let size = (72 + bytes) as u32;
    let b = riff_image(sample_rate, 2, samples);
    let f = format_and_data_head(sample_rate, 2, bytes as u32);
    lemma_envelope(
        riff_tag(),
        size,
        junk_chunk(),
        sample_rate,
        2,
        bytes as u32,
        sample_bytes(samples),
    );
    lemma_stereo_format(sample_rate, bytes as u32);
    assert(size % 8 == 0) by {
        assert(samples.len() == 2 * (samples.len() / 2));
    }
    lemma_first_data(b, size, f);
}

/// The first `data` tag of a stereo take.
proof fn lemma_first_data(b: Seq<u8>, size: u32, f: Seq<u8>)
    requires
        b.len() >= 80,
        size % 8 == 0,
        b.subrange(0, 4) == riff_tag(),
        holds_at(b, 4, le32(size)),
        b.subrange(8, 12) == wave_tag(),
        b.subrange(12, 48) == junk_chunk(),
        b.subrange(48, 80) == f,
        f.subrange(24, 28) == data_tag(),
        no_tag_in_format(f),
    ensures
        first_data(b, 72),
{
    assert(b.subrange(72, 76) =~= f.subrange(24, 28));
    assert forall|k: int| 0 <= k < 72 implies !data_at(b, k) by {
        if k < 48 {
            lemma_not_in_envelope(b, size, k);
        } else {
            lemma_not_in_format(b, f, k);
        }
    }
}

/// Four bytes that spell `data`, one by one.
proof fn lemma_data_bytes(b: Seq<u8>, k: int)
    requires
        data_at(b, k),
    ensures
        b[k] == 0x64,
        b[k + 1] == 0x61,
        b[k + 2] == 0x74,
        b[k + 3] == 0x61,
{
    let part = b.subrange(k, k + 4);
    assert(part[0] == 0x64 && part[1] == 0x61 && part[2] == 0x74 && part[3] == 0x61);
}

/// In the envelope and the reserved chunk no four bytes spell `data`.
proof fn lemma_not_in_envelope(b: Seq<u8>, size: u32, k: int)
    requires
        0 <= k < 48,
        b.len() >= 80,
        size % 8 == 0,
        b.subrange(0, 4) == riff_tag(),
        holds_at(b, 4, le32(size)),
        b.subrange(8, 12) == wave_tag(),
        b.subrange(12, 48) == junk_chunk(),
    ensures
        !data_at(b, k),
{
    if data_at(b, k) {
        lemma_data_bytes(b, k);
        if k < 4 {
            assert(b.subrange(0, 4)[k] == b[k]);
        } else if k < 8 {
            lemma_low_byte(size);
            assert(b.subrange(4, 8)[0] == b[4]);
            assert(b.subrange(8, 12)[0] == b[8]);
        } else if k < 12 {
            assert(b.subrange(8, 12)[k - 8] == b[k]);
        } else {
            lemma_reserve_has_no_d();
            assert(b.subrange(12, 48)[k - 12] == b[k]);
        }
    }
}

/// Nor in the format chunk.
proof fn lemma_not_in_format(b: Seq<u8>, f: Seq<u8>, k: int)
    requires
        48 <= k < 72,
        b.len() >= 80,
        b.subrange(48, 80) == f,
        no_tag_in_format(f),
    ensures
        !data_at(b, k),
{
    if data_at(b, k) {
        reveal(no_tag_in_format);
        lemma_data_bytes(b, k);
        assert(f[k - 48] == b[k]);
        assert(f[15] == b[63] && f[16] == b[64] && f[20] == b[68]);
    }
}

/// What a fold leaves and what it copies, byte by byte: everything before the samples
/// and the left sample of each frame stay, the four bytes of the right sample become
/// those of the left one, and an incomplete frame at the end stays.
pub proof fn law_fold_copies_left_bytes(b: Seq<u8>, start: int, frame: int, t: int, i: int)
    requires
        0 <= start,
        0 <= frame,
        0 <= t < 4,
        0 <= i < b.len(),
    ensures
        folded_from(b, start).len() == b.len(),
        i < start ==> folded_from(b, start)[i] == b[i],
        start + 8 * frame + 8 <= b.len() ==> folded_from(b, start)[start + 8 * frame + t] == b[start
            + 8 * frame + t] && folded_from(b, start)[start + 8 * frame + 4 + t] == b[start + 8
            * frame + t],
        start + 8 * frame + 8 > b.len() && i >= start + 8 * frame ==> folded_from(b, start)[i]
            == b[i],
{
    assert((8 * frame + t) % 8 == t);
    assert((8 * frame + 4 + t) % 8 == 4 + t);
    if start + 8 * frame + 8 > b.len() && i >= start + 8 * frame {
        assert((i - start) % 8 == i - start - 8 * frame);
    }
}

/// The `data` tag is the four letters d, a, t, a.
pub proof fn law_data_tag_is_spelled(b: Seq<u8>, i: int)
    requires
        0 <= i,
        i + 4 <= b.len(),
    ensures
        data_at(b, i) <==> b[i] == 0x64 && b[i + 1] == 0x61 && b[i + 2] == 0x74 && b[i + 3] == 0x61,
{
    let part = b.subrange(i, i + 4);
    assert(part[0] == b[i] && part[1] == b[i + 1] && part[2] == b[i + 2] && part[3] == b[i + 3]);
    if data_at(b, i) {
        lemma_data_bytes(b, i);
    }
    if b[i] == 0x64 && b[i + 1] == 0x61 && b[i + 2] == 0x74 && b[i + 3] == 0x61 {
        assert(part =~= data_tag());
    }
}

/// A folded frame has its left sample twice.
pub proof fn law_folded_frames_hold_left_twice(samples: Seq<u32>, frame: int)
    requires
        0 <= frame,
        2 * frame + 2 <= samples.len(),
    ensures
        both_left(samples).len() == samples.len(),
        both_left(samples)[2 * frame] == samples[2 * frame],
        both_left(samples)[2 * frame + 1] == samples[2 * frame],
{
}

} // verus!
