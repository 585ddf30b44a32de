//! Peak metering of interleaved buffers.
use crate::samples::{is_finite, unsigned_bits, INFINITY_BITS, SIGN};
use vstd::arithmetic::div_mod::lemma_fundamental_div_mod;
use vstd::prelude::*;

verus! {

/// The bit pattern of the smallest positive normal number.
pub const MIN_NORMAL_BITS: u32 = 0x0080_0000;

/// Which engine meters.
#[derive(Debug, Clone, Copy, PartialEq, Eq, Structural)]
pub enum Meter {
    /// Capture counts what is not finite as zero, and, as its thread runs with
    /// subnormals flushed, what is subnormal too.
    Capture,
    /// Playback passes over a NaN, which no comparison orders.
    Playback,
}

impl Meter {
    /// What a sample adds to a peak.
    pub open spec fn magnitude(self, s: u32) -> u32 {
        match self {
            Meter::Capture => if MIN_NORMAL_BITS <= unsigned_bits(s) && is_finite(s) {
                unsigned_bits(s)
            } else {
                0
            },
            Meter::Playback => if unsigned_bits(s) <= INFINITY_BITS {
                unsigned_bits(s)
            } else {
                0
            },
        }
    }

    /// What a sample adds to a peak.
    pub fn level(self, s: u32) -> (r: u32)
        ensures
            r == self.magnitude(s),
    {
        let m: u32 = s % SIGN;
        match self {
            Meter::Capture => if MIN_NORMAL_BITS <= m && m < INFINITY_BITS {
                m
            } else {
                0
            },
            Meter::Playback => if m <= INFINITY_BITS {
                m
            } else {
                0
            },
        }
    }
}

/// Is place `i` of an interleaved buffer one of channel `c`?
pub open spec fn on_channel(i: int, c: int, channels: int) -> bool {
    i % channels == c
}

/// `peak` is the largest magnitude on channel `c`, and zero where there is none.
pub open spec fn is_peak(s: Seq<u32>, c: int, channels: int, meter: Meter, peak: u32) -> bool {
    &&& forall|i: int|
        0 <= i < s.len() && on_channel(i, c, channels) ==> meter.magnitude(#[trigger] s[i]) <= peak
    &&& peak == 0 || exists|i: int|
        0 <= i < s.len() && on_channel(i, c, channels) && meter.magnitude(#[trigger] s[i]) == peak
}

/// `peaks` holds the peak of each channel of `s`.
pub open spec fn are_peaks(s: Seq<u32>, channels: u16, meter: Meter, peaks: Seq<u32>) -> bool {
    &&& peaks.len() == channels
    &&& forall|c: int|
        0 <= c < channels ==> is_peak(s, c, channels as int, meter, #[trigger] peaks[c])
}

/// The larger of two peaks, channel by channel.
pub open spec fn held(running: Seq<u32>, peaks: Seq<u32>) -> Seq<u32> {
    Seq::new(
        running.len(),
        |c: int|
            if peaks[c] > running[c] {
                peaks[c]
            } else {
                running[c]
            },
    )
}

/// A channel has exactly one peak.
pub proof fn law_peak_is_unique(
    s: Seq<u32>,
    c: int,
    channels: int,
    meter: Meter,
    a: u32,
    b: u32,
)
    requires
        is_peak(s, c, channels, meter, a),
        is_peak(s, c, channels, meter, b),
    ensures
        a == b,
{
}

proof fn lemma_off_channel(i: int, j: int, channels: int)
    requires
        channels > 0,
        i < j < i + channels,
    ensures
        i % channels != j % channels,
{
    lemma_fundamental_div_mod(i, channels);
    lemma_fundamental_div_mod(j, channels);
    if i % channels == j % channels {
        let a = i / channels;
        let b = j / channels;
        assert(j - i == channels * (b - a)) by (nonlinear_arith)
            requires
                i == channels * a + i % channels,
                j == channels * b + j % channels,
                i % channels == j % channels,
        ;
        assert(false) by (nonlinear_arith)
            requires
                0 < j - i < channels,
                j - i == channels * (b - a),
        ;
    }
}

/// The peak of channel `c`.
pub fn channel_peak(samples: &[u32], c: usize, channels: u16, meter: Meter) -> (peak: u32)
    requires
        c < channels,
    ensures
        is_peak(samples@, c as int, channels as int, meter, peak),
{
    let ch: usize = channels as usize;
    let mut peak: u32 = 0;
    let mut i: usize = c;
    proof {
        assert(c as int % ch as int == c) by (nonlinear_arith)
            requires
                0 <= c < ch,
        ;
        assert forall|j: int| 0 <= j < c implies !on_channel(j, c as int, ch as int) by {
            assert(j % ch as int == j) by (nonlinear_arith)
                requires
                    0 <= j < c < ch,
            ;
        }
    }
    while i < samples.len()
        invariant_except_break
            i as int % ch as int == c as int,
        invariant
            c < ch,
            ch == channels,
            forall|j: int|
                0 <= j < samples@.len() && j < i && on_channel(j, c as int, ch as int)
                    ==> meter.magnitude(#[trigger] samples@[j]) <= peak,
            peak == 0 || exists|j: int|
                0 <= j < samples@.len() && on_channel(j, c as int, ch as int) && meter.magnitude(
                    #[trigger] samples@[j],
                ) == peak,
        ensures
            forall|j: int|
                0 <= j < samples@.len() && on_channel(j, c as int, ch as int) ==> meter.magnitude(
                    #[trigger] samples@[j],
                ) <= peak,
        decreases samples@.len() - i,
    {
        let a: u32 = meter.level(samples[i]);
        if a > peak {
            peak = a;
        }
        proof {
            assert forall|j: int| i < j < i + ch implies !on_channel(j, c as int, ch as int) by {
                lemma_off_channel(i as int, j, ch as int);
            }
        }
        if samples.len() - i <= ch {
            break;
        }
        proof {
            assert((i + ch) % ch as int == i as int % ch as int) by (nonlinear_arith)
                requires
                    ch > 0,
            ;
        }
        i += ch;
    }
    peak
}

/// Meters a buffer: stores each channel's peak, and raises the running peaks
/// that it exceeds.
pub fn meter_buffer(
    samples: &[u32],
    channels: u16,
    meter: Meter,
    peak: &mut Vec<u32>,
    running_peak: &mut Vec<u32>,
)
    requires
        old(peak)@.len() == channels,
        old(running_peak)@.len() == channels,
    ensures
        are_peaks(samples@, channels, meter, final(peak)@),
        final(running_peak)@ == held(old(running_peak)@, final(peak)@),
{
    let ch: usize = channels as usize;
    let mut c: usize = 0;
    while c < ch
        invariant
            c <= ch,
            ch == channels,
            peak@.len() == channels,
            running_peak@.len() == channels,
            old(running_peak)@.len() == channels,
            forall|k: int|
                0 <= k < c ==> is_peak(samples@, k, channels as int, meter, #[trigger] peak@[k]),
            forall|k: int|
                0 <= k < channels ==> #[trigger] running_peak@[k] == if k < c {
                    held(old(running_peak)@, peak@)[k]
                } else {
                    old(running_peak)@[k]
                },
        decreases ch - c,
    {
        let p: u32 = channel_peak(samples, c, channels, meter);
        let ghost before = peak@;
        peak[c] = p;
        if p > running_peak[c] {
            running_peak[c] = p;
        }
        proof {
            assert(forall|k: int| 0 <= k < c ==> peak@[k] == before[k]);
        }
        c += 1;
    }
    proof {
        assert(running_peak@ =~= held(old(running_peak)@, peak@));
    }
}

/// `n` zeros.
pub fn zeros(n: u16) -> (r: Vec<u32>)
    ensures
        r@ == Seq::new(n as nat, |i: int| 0u32),
{
    let mut v: Vec<u32> = Vec::new();
    let mut k: u16 = 0;
    while k < n
        invariant
            k <= n,
            v@ == Seq::new(k as nat, |i: int| 0u32),
        decreases n - k,
    {
        v.push(0);
        k += 1;
        proof {
            assert(v@ =~= Seq::new(k as nat, |i: int| 0u32));
        }
    }
    v
}

/// A meter measures distance from zero: a sample and its negative count the same. On
/// the playback meter every number from zero to infinity counts as itself, and what
/// is no number not at all. The capture meter leaves out infinity and what is
/// smaller than the smallest normal number.
pub proof fn law_meters_ignore_the_sign(s: u32)
    requires
        s < 0x8000_0000,
    ensures
        Meter::Playback.magnitude((s + 0x8000_0000) as u32) == Meter::Playback.magnitude(s),
        Meter::Capture.magnitude((s + 0x8000_0000) as u32) == Meter::Capture.magnitude(s),
        s <= 0x7F80_0000 ==> Meter::Playback.magnitude(s) == s,
        s > 0x7F80_0000 ==> Meter::Playback.magnitude(s) == 0,
        0x0080_0000 <= s < 0x7F80_0000 ==> Meter::Capture.magnitude(s) == s,
        s < 0x0080_0000 || s >= 0x7F80_0000 ==> Meter::Capture.magnitude(s) == 0,
{
}

/// The peaks of an interleaved buffer, channel after channel: no finite sample on a
/// channel is farther from zero than the channel's playback peak, and one is exactly
/// as far, up to its sign, unless the channel is silent.
pub proof fn law_playback_peak_is_farthest_from_zero(
    s: Seq<u32>,
    channels: u16,
    peaks: Seq<u32>,
    i: int,
    c: int,
)
    requires
        channels > 0,
        are_peaks(s, channels, Meter::Playback, peaks),
        0 <= i < s.len(),
        0 <= c < channels,
    ensures
        peaks.len() == channels,
        s[i] % 0x8000_0000 <= 0x7F80_0000 ==> s[i] % 0x8000_0000 <= peaks[i % channels as int],
        peaks[c] == 0 || exists|k: int|
            0 <= k < s.len() && k % channels as int == c && (#[trigger] s[k]) % 0x8000_0000
                == peaks[c],
{
    let d = i % channels as int;
    assert(is_peak(s, d, channels as int, Meter::Playback, peaks[d]));
    assert(on_channel(i, d, channels as int));
    assert(Meter::Playback.magnitude(s[i]) <= peaks[d]);
    assert(is_peak(s, c, channels as int, Meter::Playback, peaks[c]));
    if peaks[c] != 0 {
        let k = choose|k: int|
            0 <= k < s.len() && on_channel(k, c, channels as int) && Meter::Playback.magnitude(
                #[trigger] s[k],
            ) == peaks[c];
        assert(s[k] % 0x8000_0000 == peaks[c]);
    }
}

/// The same of the capture meter, for samples of normal size.
pub proof fn law_capture_peak_is_farthest_from_zero(
    s: Seq<u32>,
    channels: u16,
    peaks: Seq<u32>,
    i: int,
    c: int,
)
    requires
        channels > 0,
        are_peaks(s, channels, Meter::Capture, peaks),
        0 <= i < s.len(),
        0 <= c < channels,
    ensures
        peaks.len() == channels,
        0x0080_0000 <= s[i] % 0x8000_0000 < 0x7F80_0000 ==> s[i] % 0x8000_0000 <= peaks[i
            % channels as int],
        peaks[c] == 0 || (0x0080_0000 <= peaks[c] < 0x7F80_0000 && exists|k: int|
            0 <= k < s.len() && k % channels as int == c && (#[trigger] s[k]) % 0x8000_0000
                == peaks[c]),
{
    let d = i % channels as int;
    assert(is_peak(s, d, channels as int, Meter::Capture, peaks[d]));
    assert(on_channel(i, d, channels as int));
    assert(Meter::Capture.magnitude(s[i]) <= peaks[d]);
    assert(is_peak(s, c, channels as int, Meter::Capture, peaks[c]));
    if peaks[c] != 0 {
        let k = choose|k: int|
            0 <= k < s.len() && on_channel(k, c, channels as int) && Meter::Capture.magnitude(
                #[trigger] s[k],
            ) == peaks[c];
        assert(s[k] % 0x8000_0000 == peaks[c]);
    }
}

/// A running peak is never below the one before nor below the buffer's, and it is
/// one of the two.
pub proof fn law_running_peak_is_the_larger(running: Seq<u32>, peaks: Seq<u32>, c: int)
    requires
        0 <= c < running.len(),
        peaks.len() == running.len(),
    ensures
        held(running, peaks).len() == running.len(),
        held(running, peaks)[c] >= running[c],
        held(running, peaks)[c] >= peaks[c],
        held(running, peaks)[c] == running[c] || held(running, peaks)[c] == peaks[c],
{
}

} // verus!
