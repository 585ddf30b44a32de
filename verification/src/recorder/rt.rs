//! One input callback's worth of work: meter, sanitize, hand over.
//!
//! Nothing here allocates or blocks.
use super::telemetry::Telemetry;
use crate::frames::{lemma_whole, whole};
use crate::meter::{are_peaks, held, meter_buffer, Meter};
use crate::ring::{
    capacity, free_slots, push_one, push_slice, room, same_producer, sent, sent_more,
};
use crate::samples::{all_finite, all_sanitized, finite, is_finite, sanitize};
use rtrb::Producer;
use vstd::prelude::*;
use vstd::slice::slice_subrange;

verus! {

/// Are all samples finite?
pub fn every_finite(samples: &[u32]) -> (r: bool)
    ensures
        r == all_finite(samples@),
{
    let mut i: usize = 0;
    while i < samples.len()
        invariant
            i <= samples@.len(),
            forall|k: int| 0 <= k < i ==> is_finite(#[trigger] samples@[k]),
        decreases samples@.len() - i,
    {
        if !finite(samples[i]) {
            return false;
        }
        i += 1;
    }
    true
}

/// Puts the samples into the ring, zero in place of what is not finite; all of
/// them, or none.
fn push_sanitized(p: &mut Producer<u32>, samples: &[u32]) -> (ok: bool)
    requires
        samples@.len() > 0,
    ensures
        samples@.len() <= room(*old(p)) ==> ok,
        samples@.len() > capacity(*old(p)) ==> !ok,
        ok ==> sent_more(*old(p), *final(p), all_sanitized(samples@)),
        !ok ==> same_producer(*old(p), *final(p)) && room(*final(p)) < samples@.len(),
{
    let ghost start = *p;
    let n: usize = free_slots(p);
    if n < samples.len() {
        return false;
    }
    let mut i: usize = 0;
    while i < samples.len()
        invariant
            i <= samples@.len(),
            room(*p) >= samples@.len() - i,
            capacity(*p) == capacity(start),
            sent(*p) == sent(start) + all_sanitized(samples@).take(i as int),
            i > 0 ==> sent_more(start, *p, all_sanitized(samples@).take(i as int)),
            i == 0 ==> same_producer(start, *p),
        decreases samples@.len() - i,
    {
        let s: u32 = sanitize(samples[i]);
        let _ = push_one(p, s);
        proof {
            assert(all_sanitized(samples@).take(i + 1) =~= all_sanitized(samples@).take(
                i as int,
            ).push(s));
            assert(sent(*p) =~= sent(start) + all_sanitized(samples@).take(i + 1));
        }
        i += 1;
    }
    proof {
        assert(all_sanitized(samples@).take(i as int) =~= all_sanitized(samples@));
    }
    true
}

/// What of a buffer is metered: its whole frames. A partial frame at the end
/// still goes into the ring.
pub open spec fn metered(samples: Seq<u32>, channels: u16) -> Seq<u32> {
    samples.take(whole(samples.len() as int, channels as int))
}

/// What one input buffer does to the telemetry and to the ring: nothing where it
/// holds no whole frame. Else each channel's peak is stored and held, a sample
/// that is not finite is latched, and the sanitized samples go into the ring;
/// where they do not fit, they are all dropped and counted.
pub open spec fn captured(
    samples: Seq<u32>,
    channels: u16,
    before: Telemetry,
    after: Telemetry,
    p: Producer<u32>,
    q: Producer<u32>,
) -> bool {
    if samples.len() < channels {
        after == before && q == p
    } else {
        &&& are_peaks(metered(samples, channels), channels, Meter::Capture, after.peak@)
        &&& after.running_peak@ == held(before.running_peak@, after.peak@)
        &&& after.mean_square == before.mean_square
        &&& after.xrun_count == before.xrun_count
        &&& after.non_finite_seen == (before.non_finite_seen || !all_finite(samples))
        &&& {
            ||| sent_more(p, q, all_sanitized(samples)) && after.dropped_samples
                == before.dropped_samples && samples.len() <= capacity(p)
            ||| same_producer(p, q) && after.dropped_samples == before.dropped_samples.wrapping_add(
                samples.len() as u64,
            ) && samples.len() > room(p) && samples.len() > room(q)
        }
    }
}

/// One input callback's worth of work. The mean squares of the buffer are
/// stored by [`Telemetry::set_mean_squares`].
pub fn process_input_buffer(
    samples: &[u32],
    channels: u16,
    telemetry: &mut Telemetry,
    producer: &mut Producer<u32>,
)
    requires
        channels > 0,
        old(telemetry).wf(channels),
    ensures
        final(telemetry).wf(channels),
        captured(
            samples@,
            channels,
            *old(telemetry),
            *final(telemetry),
            *old(producer),
            *final(producer),
        ),
{
    let n_frames: usize = samples.len() / (channels as usize);
    if n_frames == 0 {
        proof {
            lemma_no_whole_frame(samples@.len() as int, channels as int);
        }
        return;
    }
    proof {
        lemma_no_whole_frame(samples@.len() as int, channels as int);
        lemma_whole(samples@.len() as int, channels as int);
    }
    let clean: bool = every_finite(samples);
    let frames: &[u32] = slice_subrange(samples, 0, n_frames * (channels as usize));
    proof {
        assert(frames@ =~= metered(samples@, channels));
    }
    meter_buffer(
        frames,
        channels,
        Meter::Capture,
        &mut telemetry.peak,
        &mut telemetry.running_peak,
    );
    let pushed: bool = if clean {
        proof {
            assert(all_sanitized(samples@) =~= samples@);
        }
        push_slice(producer, samples)
    } else {
        push_sanitized(producer, samples)
    };
    if !pushed {
        telemetry.dropped_samples = telemetry.dropped_samples.wrapping_add(samples.len() as u64);
    }
    if !clean {
        telemetry.non_finite_seen = true;
    }
}

proof fn lemma_no_whole_frame(n: int, channels: int)
    requires
        channels > 0,
        n >= 0,
    ensures
        n / channels == 0 <==> n < channels,
{
    if n < channels {
        assert(n / channels == 0) by (nonlinear_arith)
            requires
                0 <= n < channels,
        ;
    } else {
        assert(n / channels >= 1) by (nonlinear_arith)
            requires
                n >= channels > 0,
        ;
    }
}

/// No sample that goes through capture reaches the ring as an infinity or a NaN.
pub proof fn law_ring_carries_finite_samples(samples: Seq<u32>)
    ensures
        all_finite(all_sanitized(samples)),
{
}

/// Capture changes no finite sample, whatever its bits.
pub proof fn law_finite_samples_pass_unchanged(samples: Seq<u32>)
    requires
        all_finite(samples),
    ensures
        all_sanitized(samples) == samples,
{
    assert(all_sanitized(samples) =~= samples);
}

/// What one input buffer does: all of its samples go into the ring behind those that
/// are in it, in order, a zero in the place of each that is an infinity or no number; or
/// none does, and all are counted as dropped. Where there is room for all, they go in.
pub proof fn law_capture_hands_over_every_sample(
    samples: Seq<u32>,
    channels: u16,
    before: Telemetry,
    after: Telemetry,
    p: Producer<u32>,
    q: Producer<u32>,
    i: int,
)
    requires
        channels > 0,
        captured(samples, channels, before, after, p, q),
        channels <= samples.len() <= u64::MAX,
        0 <= i < samples.len(),
    ensures
        ({
            let s = samples[i];
            let n = sent(p).len() as int;
            ||| {
                &&& sent(q).len() == n + samples.len()
                &&& sent(p).is_prefix_of(sent(q))
                &&& s < 0x7F80_0000 || 0x8000_0000 <= s < 0xFF80_0000 ==> sent(q)[n + i] == s
                &&& 0x7F80_0000 <= s < 0x8000_0000 || 0xFF80_0000 <= s ==> sent(q)[n + i] == 0
                &&& after.dropped_samples == before.dropped_samples
            }
            ||| {
                &&& sent(q) == sent(p)
                &&& samples.len() > room(p)
                &&& before.dropped_samples + samples.len() <= u64::MAX ==> after.dropped_samples
                    == before.dropped_samples + samples.len()
            }
        }),
        samples.len() > capacity(p) ==> sent(q) == sent(p),
        before.non_finite_seen ==> after.non_finite_seen,
        0x7F80_0000 <= samples[i] < 0x8000_0000 || 0xFF80_0000 <= samples[i]
            ==> after.non_finite_seen,
        after.non_finite_seen && !before.non_finite_seen ==> exists|k: int|
            0 <= k < samples.len() && (0x7F80_0000 <= #[trigger] samples[k] < 0x8000_0000
                || 0xFF80_0000 <= samples[k]),
{
    if after.non_finite_seen && !before.non_finite_seen {
        let k = choose|k: int| 0 <= k < samples.len() && !is_finite(#[trigger] samples[k]);
        assert(0x7F80_0000 <= samples[k] < 0x8000_0000 || 0xFF80_0000 <= samples[k]);
    }
    if 0x7F80_0000 <= samples[i] < 0x8000_0000 || 0xFF80_0000 <= samples[i] {
        assert(!is_finite(samples[i]));
    }
}

/// A buffer without a whole frame leaves everything as it was.
pub proof fn law_less_than_a_frame_is_not_captured(
    samples: Seq<u32>,
    channels: u16,
    before: Telemetry,
    after: Telemetry,
    p: Producer<u32>,
    q: Producer<u32>,
)
    requires
        captured(samples, channels, before, after, p, q),
        samples.len() < channels,
    ensures
        after == before,
        sent(q) == sent(p),
{
}

/// What is metered of a buffer: its samples from the first on, less than a frame of
/// them left out at the end.
pub proof fn law_all_whole_frames_are_metered(samples: Seq<u32>, channels: u16)
    requires
        channels > 0,
    ensures
        metered(samples, channels).is_prefix_of(samples),
        metered(samples, channels).len() % (channels as nat) == 0,
        samples.len() < metered(samples, channels).len() + channels,
{
    lemma_whole(samples.len() as int, channels as int);
}

} // verus!
