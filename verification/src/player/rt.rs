//! One output callback's worth of work: fill the buffer, meter it, count.
//!
//! Nothing here allocates or blocks.
use super::signals::TransportSignals;
use super::telemetry::Telemetry;
use crate::frames::{lemma_whole, lemma_whole_monotone, smaller, whole, whole_frames};
use crate::meter::{are_peaks, held, meter_buffer, Meter};
use crate::ring::{pop_into, ready, ready_slots, source_of, taken};
use crate::samples::ZERO_BITS;
use rtrb::Consumer;
use vstd::prelude::*;

verus! {

/// `n` samples of silence.
pub open spec fn silence(n: int) -> Seq<u32> {
    Seq::new(n as nat, |i: int| ZERO_BITS)
}

/// What came out of the ring between `c` and `d`.
pub open spec fn drained(c: Consumer<u32>, d: Consumer<u32>) -> Seq<u32> {
    taken(d).skip(taken(c).len() as int)
}

/// `d` is `c` with items taken out, in order, or with nothing done to it.
pub open spec fn advanced(c: Consumer<u32>, d: Consumer<u32>) -> bool {
    &&& taken(d) == taken(c) + drained(c, d)
    &&& source_of(d) == source_of(c)
    &&& drained(c, d).len() > 0 ==> taken(d).is_prefix_of(source_of(d))
}

/// What filling an output buffer of `n` samples does: whole frames from the
/// ring, as many as are ready, then silence. A shortfall counts as an under-run.
/// The position moves by the frames that came from the ring, not by the silence.
pub open spec fn filled(
    n: int,
    out: Seq<u32>,
    channels: u16,
    before: Telemetry,
    after: Telemetry,
    c: Consumer<u32>,
    d: Consumer<u32>,
) -> bool {
    let block = drained(c, d);
    &&& advanced(c, d)
    &&& block.len() % (channels as nat) == 0
    &&& whole(smaller(ready(c) as int, n), channels as int) <= block.len() <= n
    &&& out == block + silence(n - block.len())
    &&& after.xrun_count == if block.len() < n {
        before.xrun_count.wrapping_add(1)
    } else {
        before.xrun_count
    }
    &&& are_peaks(out, channels, Meter::Playback, after.peak@)
    &&& after.running_peak@ == held(before.running_peak@, after.peak@)
    &&& after.mean_square == before.mean_square
    &&& after.position_frames == before.position_frames.wrapping_add(
        (block.len() / (channels as nat)) as u64,
    )
}

/// Of `n` samples wanted, all whole frames came out that were ready when the ring
/// was looked at; `d` still knows of the rest.
pub open spec fn took_what_was_ready(
    n: int,
    channels: u16,
    c: Consumer<u32>,
    d: Consumer<u32>,
) -> bool {
    let k = drained(c, d).len() as int;
    k == whole(smaller(k + ready(d), n), channels as int)
}

/// What a flush does: nothing that was ready stays in the ring, the position
/// jumps to the seek's target, and the request is answered.
pub open spec fn flushed(
    before: Telemetry,
    after: Telemetry,
    s: TransportSignals,
    t: TransportSignals,
    c: Consumer<u32>,
    d: Consumer<u32>,
) -> bool {
    &&& advanced(c, d)
    &&& drained(c, d).len() >= ready(c)
    &&& ready(d) == 0
    &&& after == (Telemetry { position_frames: s.seek_target, ..before })
    &&& t == (TransportSignals { flush_request: false, ..s })
}

/// Writes silence over `out` from `from` on.
fn silence_from(out: &mut [u32], from: usize)
    requires
        from <= old(out)@.len(),
    ensures
        final(out)@ == old(out)@.take(from as int) + silence(old(out)@.len() - from),
{
    let mut i: usize = from;
    while i < out.len()
        invariant
            from <= i <= out@.len(),
            out@.len() == old(out)@.len(),
            out@ == old(out)@.take(from as int) + silence(i - from) + old(out)@.skip(i as int),
        decreases out@.len() - i,
    {
        out[i] = ZERO_BITS;
        proof {
            assert(out@ =~= old(out)@.take(from as int) + silence(i + 1 - from) + old(out)@.skip(
                i + 1,
            ));
        }
        i += 1;
    }
    proof {
        assert(out@ =~= old(out)@.take(from as int) + silence(old(out)@.len() - from));
    }
}

/// One output callback's worth of work: the next frames of the ring, metered. An
/// empty buffer is a no-op. The mean squares of the buffer are stored by
/// [`Telemetry::set_mean_squares`].
pub fn process_output_buffer(
    out: &mut [u32],
    channels: u16,
    telemetry: &mut Telemetry,
    consumer: &mut Consumer<u32>,
)
    requires
        channels > 0,
        old(telemetry).wf(channels),
    ensures
        final(telemetry).wf(channels),
        final(out)@.len() == old(out)@.len(),
        old(out)@.len() == 0 ==> *final(telemetry) == *old(telemetry) && *final(consumer) == *old(
            consumer,
        ),
        old(out)@.len() > 0 ==> filled(
            old(out)@.len() as int,
            final(out)@,
            channels,
            *old(telemetry),
            *final(telemetry),
            *old(consumer),
            *final(consumer),
        ) && took_what_was_ready(
            old(out)@.len() as int,
            channels,
            *old(consumer),
            *final(consumer),
        ),
{
    if out.len() == 0 {
        return;
    }
    let ghost start = *consumer;
    let want: usize = out.len();
    let available: usize = ready_slots(consumer);
    let n: usize = whole_frames(available, want, channels);
    proof {
        let known = smaller(ready(start) as int, want as int);
        let seen = smaller(available as int, want as int);
        lemma_whole(seen, channels as int);
        lemma_whole_monotone(known, seen, channels as int);
    }
    if n > 0 {
        let _ = pop_into(consumer, out, n);
    }
    let ghost block = out@.take(n as int);
    proof {
        assert(drained(start, *consumer) =~= block);
    }
    if n < want {
        silence_from(out, n);
        telemetry.xrun_count = telemetry.xrun_count.wrapping_add(1);
    }
    proof {
        assert(out@ =~= block + silence(want - n));
    }
    meter_buffer(
        out,
        channels,
        Meter::Playback,
        &mut telemetry.peak,
        &mut telemetry.running_peak,
    );
    let frames: usize = n / (channels as usize);
    telemetry.position_frames = telemetry.position_frames.wrapping_add(frames as u64);
}

/// Takes out all that is ready, using `scratch` to hold it for a moment.
fn discard_ready(consumer: &mut Consumer<u32>, scratch: &mut [u32])
    requires
        old(scratch)@.len() > 0,
    ensures
        final(scratch)@.len() == old(scratch)@.len(),
        advanced(*old(consumer), *final(consumer)),
        drained(*old(consumer), *final(consumer)).len() >= ready(*old(consumer)),
        ready(*final(consumer)) == 0,
{
    let ghost start = *consumer;
    let mut left: usize = ready_slots(consumer);
    proof {
        assert(drained(start, *consumer) =~= Seq::empty());
        assert(taken(*consumer) =~= taken(start) + drained(start, *consumer));
    }
    while left > 0
        invariant
            scratch@.len() == old(scratch)@.len(),
            scratch@.len() > 0,
            ready(*consumer) == left,
            advanced(start, *consumer),
            drained(start, *consumer).len() + left >= ready(start),
        decreases left,
    {
        let n: usize = if left < scratch.len() {
            left
        } else {
            scratch.len()
        };
        let ghost before = *consumer;
        let _ = pop_into(consumer, scratch, n);
        proof {
            assert(drained(start, *consumer) =~= drained(start, before) + scratch@.take(n as int));
            assert(taken(*consumer) =~= taken(start) + drained(start, *consumer));
        }
        left -= n;
    }
}

/// An output callback under the transport's flags. After a stop it is silent and
/// touches nothing. When the reader has asked for a flush, what the ring holds is
/// dropped, the position jumps to the seek's target, the request is cleared, and
/// this one buffer is silent. Else the buffer is filled; once the source has
/// ended and the ring is empty, playback is complete.
pub fn output_callback(
    out: &mut [u32],
    channels: u16,
    telemetry: &mut Telemetry,
    signals: &mut TransportSignals,
    consumer: &mut Consumer<u32>,
)
    requires
        channels > 0,
        old(telemetry).wf(channels),
    ensures
        final(telemetry).wf(channels),
        final(out)@.len() == old(out)@.len(),
        old(out)@.len() == 0 ==> *final(telemetry) == *old(telemetry) && *final(consumer) == *old(
            consumer,
        ) && *final(signals) == *old(signals),
        old(out)@.len() > 0 && old(signals).stop_request ==> {
            &&& final(out)@ == silence(old(out)@.len() as int)
            &&& *final(telemetry) == *old(telemetry)
            &&& *final(consumer) == *old(consumer)
            &&& *final(signals) == *old(signals)
        },
        old(out)@.len() > 0 && !old(signals).stop_request && old(signals).flush_request ==> {
            &&& final(out)@ == silence(old(out)@.len() as int)
            &&& flushed(
                *old(telemetry),
                *final(telemetry),
                *old(signals),
                *final(signals),
                *old(consumer),
                *final(consumer),
            )
        },
        old(out)@.len() > 0 && !old(signals).stop_request && !old(signals).flush_request ==> {
            &&& filled(
                old(out)@.len() as int,
                final(out)@,
                channels,
                *old(telemetry),
                *final(telemetry),
                *old(consumer),
                *final(consumer),
            )
            &&& *final(signals) == (TransportSignals {
                playback_complete: final(signals).playback_complete,
                ..*old(signals)
            })
            &&& !old(signals).eof_seen ==> took_what_was_ready(
                old(out)@.len() as int,
                channels,
                *old(consumer),
                *final(consumer),
            )
            &&& final(signals).playback_complete == (old(signals).playback_complete || (old(
                signals,
            ).eof_seen && ready(*final(consumer)) == 0))
        },
{
    if out.len() == 0 {
        return;
    }
    if signals.stop_request {
        silence_from(out, 0);
        proof {
            assert(out@ =~= silence(old(out)@.len() as int));
        }
        return;
    }
    if signals.flush_request {
        discard_ready(consumer, out);
        telemetry.set_position_frames(signals.seek_target);
        signals.flush_request = false;
        silence_from(out, 0);
        proof {
            assert(out@ =~= silence(old(out)@.len() as int));
        }
        return;
    }
    process_output_buffer(out, channels, telemetry, consumer);
    let ghost filled_to = *consumer;
    if signals.eof_seen && ready_slots(consumer) == 0 {
        signals.playback_complete = true;
    }
    proof {
        assert(drained(*old(consumer), *consumer) =~= drained(*old(consumer), filled_to));
    }
}

/// What an output buffer holds once it is filled: first, in order, the samples that the
/// ring gave next, and from there on zeros; a buffer that needed any zero counts as one
/// under-run, and the position moves by the frames that the ring gave.
pub proof fn law_output_is_the_ring_and_then_zeros(
    n: int,
    out: Seq<u32>,
    channels: u16,
    before: Telemetry,
    after: Telemetry,
    c: Consumer<u32>,
    d: Consumer<u32>,
    i: int,
)
    requires
        channels > 0,
        n > 0,
        filled(n, out, channels, before, after, c, d),
        0 <= i < n,
    ensures
        taken(c).len() <= taken(d).len() <= taken(c).len() + n,
        taken(c).is_prefix_of(taken(d)),
        out.len() == n,
        ({
            let given = taken(d).len() - taken(c).len();
            &&& i < given ==> out[i] == taken(d)[taken(c).len() + i]
            &&& i >= given ==> out[i] == 0
            &&& given % (channels as int) == 0
            &&& n <= ready(c) && n % (channels as int) == 0 ==> given == n
            &&& given == n ==> after.xrun_count == before.xrun_count
            &&& given < n && before.xrun_count < u32::MAX ==> after.xrun_count == before.xrun_count
                + 1
            &&& before.position_frames + n <= u64::MAX ==> (after.position_frames
                - before.position_frames) * channels == given
        }),
{
    let block = drained(c, d);
    let given = taken(d).len() - taken(c).len();
    assert(block.len() == given);
    let ch = channels as int;
    lemma_whole(smaller(ready(c) as int, n), ch);
    lemma_whole(given, ch);
    assert(given / ch <= given) by (nonlinear_arith)
        requires
            ch > 0,
            given >= 0,
    ;
    assert(given / ch * ch == given);
    assert(given / ch >= 0) by (nonlinear_arith)
        requires
            ch > 0,
            given >= 0,
    ;
}

/// After a flush nothing is ready, all that was ready before is gone, and playback is at
/// the place that the seek asked for; the request is no longer open, and nothing else of
/// the transport or the telemetry has changed.
pub proof fn law_flush_jumps_to_the_target(
    before: Telemetry,
    after: Telemetry,
    s: TransportSignals,
    t: TransportSignals,
    c: Consumer<u32>,
    d: Consumer<u32>,
)
    requires
        flushed(before, after, s, t, c, d),
    ensures
        after.position_frames == s.seek_target,
        ready(d) == 0,
        taken(d).len() >= taken(c).len() + ready(c),
        after.xrun_count == before.xrun_count,
        after.peak@ == before.peak@,
        after.running_peak@ == before.running_peak@,
        after.mean_square@ == before.mean_square@,
        !t.flush_request,
        t.stop_request == s.stop_request,
        t.seek_pending == s.seek_pending,
        t.seek_target == s.seek_target,
        t.eof_seen == s.eof_seen,
        t.playback_complete == s.playback_complete,
{
}

/// The callback leaves no whole frame in the ring that it could have played: where it
/// still knows of one, less than a frame was missing in its buffer.
pub proof fn law_callback_plays_what_is_ready(
    n: int,
    channels: u16,
    c: Consumer<u32>,
    d: Consumer<u32>,
)
    requires
        channels > 0,
        n >= 0,
        took_what_was_ready(n, channels, c, d),
        taken(c).is_prefix_of(taken(d)),
    ensures
        taken(d).len() - taken(c).len() <= n,
        (taken(d).len() - taken(c).len()) % (channels as int) == 0,
        ready(d) >= channels ==> taken(d).len() - taken(c).len() + channels > n,
{
    let k = drained(c, d).len() as int;
    assert(k == taken(d).len() - taken(c).len());
    lemma_whole(smaller(k + ready(d), n), channels as int);
}

/// Silence is zeros.
pub proof fn law_silence_is_zeros(n: int, i: int)
    requires
        0 <= i < n,
    ensures
        silence(n).len() == n,
        silence(n)[i] == 0,
{
}

} // verus!
