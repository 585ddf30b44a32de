//! What is recorded plays back: the parser reads the writer's files.
use super::reader::{flush_asked, repositioned, step_kind, ReaderState};
use super::rt::{advanced, drained, flushed};
use super::signals::TransportSignals;
use super::source::PlaybackSource;
use super::telemetry::Telemetry;
use super::wav::{chunks, data_chunk, fmt_chunk, next_chunk, parsed, Outcome, ParseFault, WavMeta};
use crate::bytes::{
    holds_at, law_u16_reads_back, law_u32_reads_back, law_u64_reads_back, le32, le64,
    u32_at, u64_at,
};
use crate::recorder::wav::header::{
    data_tag, fmt_tag, format_and_data_head, header_image, junk_chunk, junk_tag, lemma_envelope,
    lemma_format_parts, riff_tag, wave_tag, BITS_PER_SAMPLE, FMT_SUBCHUNK_SIZE, FORMAT_TAG_IEEE_FLOAT,
};
use crate::recorder::wav::rf64::{ds64_chunk, ds64_tag, rf64_tag, RF64_SIZE_SENTINEL};
use crate::recorder::wav::{rf64_image, riff_image, WavFile};
use crate::ring::{feed_of, law_ring_keeps_order, sent, source_of, taken};
use crate::samples::{law_samples_read_back, sample_bytes, samples_at};
use rtrb::{Consumer, Producer};
use vstd::arithmetic::div_mod::lemma_mod_multiples_basic;
use vstd::prelude::*;

verus! {

proof fn lemma_subrange_of_subrange(b: Seq<u8>, lo: int, hi: int)
    requires
        0 <= lo <= hi <= b.len(),
    ensures
        forall|i: int, j: int|
            lo <= i <= j <= hi ==> #[trigger] b.subrange(i, j) == b.subrange(lo, hi).subrange(
                i - lo,
                j - lo,
            ),
{
    assert forall|i: int, j: int| lo <= i <= j <= hi implies #[trigger] b.subrange(i, j)
        == b.subrange(lo, hi).subrange(i - lo, j - lo) by {
        assert(b.subrange(i, j) =~= b.subrange(lo, hi).subrange(i - lo, j - lo));
    }
}

/// What the parser reads from a `ds64` chunk at 12.
proof fn lemma_ds64(b: Seq<u8>, riff_size: u64, data_size: u64, frames: u64)
    requires
        b.len() >= 48,
        b.subrange(12, 48) == ds64_chunk(riff_size, data_size, frames),
    ensures
        b.subrange(12, 16) == ds64_tag(),
        u32_at(b, 16) == 28,
        u64_at(b, 28) == data_size,
{
    let d = ds64_chunk(riff_size, data_size, frames);
    assert(d.subrange(0, 4) =~= ds64_tag());
    assert(d.subrange(4, 8) =~= le32(28));
    assert(d.subrange(16, 24) =~= le64(data_size));
    lemma_subrange_of_subrange(b, 12, 48);
    law_u32_reads_back(b, 16, 28);
    law_u64_reads_back(b, 28, data_size);
}

/// What the parser reads from the format and data head at 48.
proof fn lemma_format_and_data(b: Seq<u8>, sample_rate: u32, channels: u16, data_size: u32)
    requires
        b.len() >= 80,
        b.subrange(48, 80) == format_and_data_head(sample_rate, channels, data_size),
    ensures
        b.subrange(48, 52) == fmt_tag(),
        u32_at(b, 52) == 16,
        fmt_chunk(b, 56, 16) == Result::<(u32, u16), ParseFault>::Ok((sample_rate, channels)),
        b.subrange(72, 76) == data_tag(),
        u32_at(b, 76) == data_size,
{
    lemma_format_parts(sample_rate, channels, data_size);
    lemma_subrange_of_subrange(b, 48, 80);
    law_u32_reads_back(b, 52, FMT_SUBCHUNK_SIZE);
    law_u16_reads_back(b, 56, FORMAT_TAG_IEEE_FLOAT);
    law_u16_reads_back(b, 58, channels);
    law_u32_reads_back(b, 60, sample_rate);
    law_u16_reads_back(b, 70, BITS_PER_SAMPLE);
    law_u32_reads_back(b, 76, data_size);
}

/// The walk from the format chunk at 48 on.
proof fn lemma_walk_from_format(
    b: Seq<u8>,
    sample_rate: u32,
    channels: u16,
    data_size: u32,
    is_rf64: bool,
    ds64: Option<u64>,
)
    requires
        b.len() >= 80,
        b.subrange(48, 80) == format_and_data_head(sample_rate, channels, data_size),
    ensures
        chunks(b, 48, is_rf64, None, ds64) == data_chunk(
            80,
            data_size,
            is_rf64,
            Some((sample_rate, channels)),
            ds64,
        ),
{
    lemma_format_and_data(b, sample_rate, channels, data_size);
    assert(fmt_tag()[0] == 0x66 && ds64_tag()[0] == 0x64);
    assert(data_tag()[1] == 0x61 && ds64_tag()[1] == 0x73 && data_tag()[0] == 0x64);
    assert(next_chunk(48, 16) == 72);
    assert(chunks(b, 72, is_rf64, Some((sample_rate, channels)), ds64) == data_chunk(
        80,
        data_size,
        is_rf64,
        Some((sample_rate, channels)),
        ds64,
    ));
}

/// The walk over a reserved chunk at 12.
proof fn lemma_walk_over_reserve(b: Seq<u8>)
    requires
        b.len() >= 80,
        b.subrange(12, 48) == junk_chunk(),
    ensures
        chunks(b, 12, false, None, None) == chunks(b, 48, false, None, None),
{
    let d = junk_chunk();
    assert(d.subrange(0, 4) =~= junk_tag());
    assert(d.subrange(4, 8) =~= le32(28));
    lemma_subrange_of_subrange(b, 12, 48);
    law_u32_reads_back(b, 16, 28);
    assert(b.subrange(12, 16) == junk_tag());
    assert(junk_tag()[0] == 0x4A && ds64_tag()[0] == 0x64 && fmt_tag()[0] == 0x66 && data_tag()[0]
        == 0x64);
    assert(next_chunk(12, 28) == 48);
}

/// The walk over a `ds64` chunk at 12.
proof fn lemma_walk_over_ds64(b: Seq<u8>, riff_size: u64, data_size: u64, frames: u64)
    requires
        b.len() >= 80,
        b.subrange(12, 48) == ds64_chunk(riff_size, data_size, frames),
    ensures
        chunks(b, 12, true, None, None) == chunks(b, 48, true, None, Some(data_size)),
{
    lemma_ds64(b, riff_size, data_size, frames);
    assert(next_chunk(12, 28) == 48);
}

/// A plain envelope leads to the chunk walk.
proof fn lemma_plain_envelope(b: Seq<u8>)
    requires
        b.len() >= 12,
        b.subrange(0, 4) == riff_tag(),
        b.subrange(8, 12) == wave_tag(),
    ensures
        parsed(b) == chunks(b, 12, false, None, None),
{
}

/// So does an RF64 envelope.
proof fn lemma_rf64_envelope(b: Seq<u8>)
    requires
        b.len() >= 12,
        b.subrange(0, 4) == rf64_tag(),
        u32_at(b, 4) == RF64_SIZE_SENTINEL,
        b.subrange(8, 12) == wave_tag(),
    ensures
        parsed(b) == chunks(b, 12, true, None, None),
{
    assert(rf64_tag()[1] == 0x46 && riff_tag()[1] == 0x49);
}

/// A header with a reserved chunk parses.
proof fn lemma_plain_header(b: Seq<u8>, sample_rate: u32, channels: u16, data_size: u32)
    requires
        b.len() >= 80,
        b.subrange(0, 4) == riff_tag(),
        b.subrange(8, 12) == wave_tag(),
        b.subrange(12, 48) == junk_chunk(),
        b.subrange(48, 80) == format_and_data_head(sample_rate, channels, data_size),
    ensures
        parsed(b) == data_chunk(80, data_size, false, Some((sample_rate, channels)), None),
{
    assert(parsed(b) == chunks(b, 12, false, None, None)) by {
        lemma_plain_envelope(b);
    }
    assert(chunks(b, 12, false, None, None) == chunks(b, 48, false, None, None)) by {
        lemma_walk_over_reserve(b);
    }
    lemma_walk_from_format(b, sample_rate, channels, data_size, false, None);
}

/// A header with a `ds64` chunk parses.
proof fn lemma_rf64_header(
    b: Seq<u8>,
    sample_rate: u32,
    channels: u16,
    riff_size: u64,
    data_size: u64,
    frames: u64,
)
    requires
        b.len() >= 80,
        b.subrange(0, 4) == rf64_tag(),
        holds_at(b, 4, le32(RF64_SIZE_SENTINEL)),
        b.subrange(8, 12) == wave_tag(),
        b.subrange(12, 48) == ds64_chunk(riff_size, data_size, frames),
        b.subrange(48, 80) == format_and_data_head(sample_rate, channels, RF64_SIZE_SENTINEL),
    ensures
        parsed(b) == data_chunk(
            80,
            RF64_SIZE_SENTINEL,
            true,
            Some((sample_rate, channels)),
            Some(data_size),
        ),
{
    assert(parsed(b) == chunks(b, 12, true, None, None)) by {
        law_u32_reads_back(b, 4, RF64_SIZE_SENTINEL);
        lemma_rf64_envelope(b);
    }
    assert(chunks(b, 12, true, None, None) == chunks(b, 48, true, None, Some(data_size))) by {
        lemma_walk_over_ds64(b, riff_size, data_size, frames);
    }
    lemma_walk_from_format(
        b,
        sample_rate,
        channels,
        RF64_SIZE_SENTINEL,
        true,
        Some(data_size),
    );
}

/// A finished plain file parses back to its format, with its samples from byte 80
/// on.
pub proof fn law_plain_file_parses_back(sample_rate: u32, channels: u16, samples: Seq<u32>)
    requires
        channels > 0,
        samples.len() % (channels as nat) == 0,
        72 + 4 * samples.len() <= u32::MAX,
    ensures
        parsed(riff_image(sample_rate, channels, samples)) == Outcome::Ok(
            WavMeta {
                sample_rate,
                channels,
                data_offset: 80,
                data_bytes: (4 * samples.len()) as u64,
            },
        ),
{
    let bytes = 4 * samples.len();
    let tail = sample_bytes(samples);
    let b = riff_image(sample_rate, channels, samples);
    lemma_envelope(
        riff_tag(),
        (72 + bytes) as u32,
        junk_chunk(),
        sample_rate,
        channels,
        bytes as u32,
        tail,
    );
    lemma_plain_header(b, sample_rate, channels, bytes as u32);
    lemma_whole_frames(channels, samples.len());
}

/// A finished RF64 file parses back to its format, with its samples from byte 80
/// on.
pub proof fn law_rf64_file_parses_back(sample_rate: u32, channels: u16, samples: Seq<u32>)
    requires
        channels > 0,
        samples.len() % (channels as nat) == 0,
        80 + 4 * samples.len() <= u64::MAX,
    ensures
        parsed(rf64_image(sample_rate, channels, samples)) == Outcome::Ok(
            WavMeta {
                sample_rate,
                channels,
                data_offset: 80,
                data_bytes: (4 * samples.len()) as u64,
            },
        ),
{
    let bytes = 4 * samples.len();
    let tail = sample_bytes(samples);
    let b = rf64_image(sample_rate, channels, samples);
    let frames = (samples.len() / (channels as nat)) as u64;
    let ds64 = ds64_chunk((72 + bytes) as u64, bytes as u64, frames);
    lemma_envelope(
        rf64_tag(),
        RF64_SIZE_SENTINEL,
        ds64,
        sample_rate,
        channels,
        RF64_SIZE_SENTINEL,
        tail,
    );
    lemma_rf64_header(b, sample_rate, channels, (72 + bytes) as u64, bytes as u64, frames);
    lemma_whole_frames(channels, samples.len());
}

proof fn lemma_whole_frames(channels: u16, n: nat)
    requires
        channels > 0,
        n % (channels as nat) == 0,
    ensures
        (4 * n) as int % (channels * 4) == 0,
{
    let c = channels as int;
    let k = n as int / c;
    assert(n == k * c) by (nonlinear_arith)
        requires
            c > 0,
            k == n as int / c,
            n as int % c == 0,
    ;
    assert(4 * n == k * (c * 4)) by (nonlinear_arith)
        requires
            n == k * c,
    ;
    lemma_mod_multiples_basic(k, c * 4);
}

/// What is recorded plays back: the finished file parses, says the format it was
/// recorded in, and holds the recorded samples bit for bit where the header says
/// they are.
pub proof fn law_recording_plays_back(f: WavFile)
    requires
        f.well_formed(),
        f.sizes_fit(),
    ensures
        ({
            let meta = WavMeta {
                sample_rate: f.sample_rate,
                channels: f.channels,
                data_offset: 80,
                data_bytes: f.audio_bytes() as u64,
            };
            &&& parsed(f.final_image()) == Outcome::Ok(meta)
            &&& meta.frames() == f.frames()
            &&& f.final_image().len() == meta.data_offset + meta.data_bytes
            &&& samples_at(f.final_image(), 80, f.samples.len()) == f.samples
        }),
{
    assert(parsed(f.final_image()) == Outcome::Ok(
        WavMeta {
            sample_rate: f.sample_rate,
            channels: f.channels,
            data_offset: 80,
            data_bytes: f.audio_bytes() as u64,
        },
    )) by {
        if f.promoted {
            law_rf64_file_parses_back(f.sample_rate, f.channels, f.samples);
        } else {
            law_plain_file_parses_back(f.sample_rate, f.channels, f.samples);
        }
    }
    lemma_image_holds_samples(f);
    assert((4 * f.samples.len()) as int / (f.channels * 4) == f.samples.len() as int
        / f.channels as int) by (nonlinear_arith)
        requires
            f.channels > 0,
            f.samples.len() as int % f.channels as int == 0,
    ;
}

/// The samples of a finished file stand behind its header.
proof fn lemma_image_holds_samples(f: WavFile)
    requires
        f.well_formed(),
        f.sizes_fit(),
    ensures
        f.final_image().len() == 80 + f.audio_bytes(),
        samples_at(f.final_image(), 80, f.samples.len()) == f.samples,
{
    let b = f.final_image();
    f.lemma_header_lens();
    let h = b.subrange(0, 80);
    assert(b =~= h + sample_bytes(f.samples)) by {
        reveal(header_image);
    }
    lemma_samples_in_place(h, sample_bytes(f.samples), f.samples.len());
    law_samples_read_back(f.samples);
}

/// Samples behind a header of 80 bytes stand from byte 80 on.
proof fn lemma_samples_in_place(h: Seq<u8>, audio: Seq<u8>, n: nat)
    requires
        h.len() == 80,
        audio.len() == 4 * n,
    ensures
        samples_at(h + audio, 80, n) == samples_at(audio, 0, n),
{
    let b = h + audio;
    assert forall|i: int| 0 <= i < n implies #[trigger] samples_at(b, 80, n)[i] == samples_at(
        audio,
        0,
        n,
    )[i] by {
        assert(b[80 + 4 * i] == audio[4 * i]);
        assert(b[80 + 4 * i + 1] == audio[4 * i + 1]);
        assert(b[80 + 4 * i + 2] == audio[4 * i + 2]);
        assert(b[80 + 4 * i + 3] == audio[4 * i + 3]);
    }
    assert(samples_at(b, 80, n) =~= samples_at(audio, 0, n));
}

/// Wherever playback of a finished recording is moved to, what is read there is
/// what was recorded there: `n` samples from `frame` on.
pub proof fn law_every_frame_reads_back(f: WavFile, frame: nat, n: nat)
    requires
        f.well_formed(),
        f.sizes_fit(),
        frame * f.channels + n <= f.samples.len(),
    ensures
        samples_at(f.final_image(), 80 + frame * (f.channels * 4), n) == f.samples.subrange(
            (frame * f.channels) as int,
            frame * f.channels + n,
        ),
{
    law_recording_plays_back(f);
    let b = f.final_image();
    let start = frame * f.channels;
    assert(frame * (f.channels * 4) == 4 * start) by (nonlinear_arith)
        requires
            start == frame * f.channels,
    ;
    let all = samples_at(b, 80, f.samples.len());
    assert forall|i: int| 0 <= i < n implies #[trigger] samples_at(b, 80 + 4 * start, n)[i]
        == f.samples.subrange(start as int, start + n)[i] by {
        assert(all[start + i] == f.samples[start + i]);
        assert(80 + 4 * start + 4 * i == 80 + 4 * (start + i));
    }
    assert(samples_at(b, 80 + 4 * start, n) =~= f.samples.subrange(start as int, start + n));
}

/// Playback is sample-accurate: between seeks, what the output callback has taken
/// out of the ring is what the source held, in order and without a gap. `source`
/// is what the source held when the ring was new, and `left` what it still holds.
pub proof fn law_playback_follows_the_source(
    source: Seq<u32>,
    left: Seq<u32>,
    p: Producer<u32>,
    c: Consumer<u32>,
)
    requires
        sent(p) + left == source,
        source_of(c) == feed_of(p),
        sent(p).is_prefix_of(feed_of(p)),
        taken(c).is_prefix_of(source_of(c)),
        taken(c).len() <= sent(p).len(),
    ensures
        taken(c).is_prefix_of(source),
{
    law_ring_keeps_order(p, c);
    assert(source.take(taken(c).len() as int) =~= sent(p).take(taken(c).len() as int));
}

/// A seek is sample-accurate. The reader asks the output callback for a flush, and
/// the callback flushes the ring: it finds there what the reader had sent. From
/// then on the position is the frame that was asked for, and it is the reader's turn
/// to move the source there. Once it has, a source that reaches the frame is heard
/// from that frame on, and does not count as ended. `p` is the reader's end while it
/// waits, `q` and `left` are its end and the rest of the source after further pulls,
/// and `d` and `e` the other end after the flush and later.
pub proof fn law_seek_lands_on_its_frame<S: PlaybackSource>(
    frame: u64,
    source: S,
    moved: S,
    pending: TransportSignals,
    answered: TransportSignals,
    done: TransportSignals,
    before: Telemetry,
    after: Telemetry,
    c: Consumer<u32>,
    d: Consumer<u32>,
    e: Consumer<u32>,
    p: Producer<u32>,
    q: Producer<u32>,
    left: Seq<u32>,
)
    requires
        source.reaches(frame),
        pending.seek_pending,
        pending.seek_target == frame,
        !pending.stop_request,
        flushed(before, after, flush_asked(pending), answered, c, d),
        taken(d) == sent(p),
        repositioned(source, moved, answered, done),
        sent(q) + left == sent(p) + moved.remaining(),
        advanced(d, e),
        source_of(e) == feed_of(q),
        sent(q).is_prefix_of(feed_of(q)),
        taken(e).is_prefix_of(source_of(e)),
        taken(e).len() <= sent(q).len(),
    ensures
        after.position_frames == frame,
        step_kind(ReaderState { waiting_for_audio_ack: true }, answered) is Reposition,
        !done.seek_pending,
        !done.eof_seen,
        !done.playback_complete,
        drained(d, e).is_prefix_of(source.all().skip(frame * source.channel_count())),
{
    law_ring_keeps_order(q, e);
    let rest = moved.remaining();
    let heard = drained(d, e);
    assert((sent(q) + left).len() == sent(p).len() + rest.len());
    assert forall|i: int| 0 <= i < heard.len() implies heard[i] == rest[i] by {
        let k = taken(d).len() + i;
        assert(taken(e)[k] == heard[i]);
        assert(sent(q)[k] == taken(e)[k]);
        assert((sent(q) + left)[k] == sent(q)[k]);
        assert((sent(p) + rest)[k] == rest[i]);
    }
    assert(heard =~= rest.take(heard.len() as int));
}

} // verus!
