//! What the capture thread reports about itself.
use crate::meter::zeros;
use vstd::prelude::*;

verus! {

/// Levels and counters of one capture session. Levels are the bit patterns of
/// non-negative floats, one per channel.
#[derive(Debug)]
pub struct Telemetry {
    /// Largest magnitude in the last buffer.
    pub peak: Vec<u32>,
    /// Largest magnitude since the take began.
    pub running_peak: Vec<u32>,
    /// Mean square of the last buffer.
    pub mean_square: Vec<u32>,
    pub xrun_count: u32,
    /// Samples that found the ring full.
    pub dropped_samples: u64,
    /// Latched once a sample was not finite.
    pub non_finite_seen: bool,
}

impl Telemetry {
    /// One level per channel.
    pub open spec fn wf(&self, channels: u16) -> bool {
        &&& self.peak@.len() == channels
        &&& self.running_peak@.len() == channels
        &&& self.mean_square@.len() == channels
    }

    /// Silence, and no events.
    pub fn new(channels: u16) -> (r: Telemetry)
        ensures
            r.wf(channels),
            r.peak@ == Seq::new(channels as nat, |i: int| 0u32),
            r.running_peak@ == Seq::new(channels as nat, |i: int| 0u32),
            r.mean_square@ == Seq::new(channels as nat, |i: int| 0u32),
            r.xrun_count == 0,
            r.dropped_samples == 0,
            !r.non_finite_seen,
    {
        Telemetry {
            peak: zeros(channels),
            running_peak: zeros(channels),
            mean_square: zeros(channels),
            xrun_count: 0,
            dropped_samples: 0,
            non_finite_seen: false,
        }
    }

    /// Last-buffer peak of a channel.
    pub fn peak_value(&self, channel: u16) -> (r: u32)
        requires
            channel < self.peak@.len(),
        ensures
            r == self.peak@[channel as int],
    {
        self.peak[channel as usize]
    }

    /// Peak of a channel since the take began.
    pub fn running_peak_value(&self, channel: u16) -> (r: u32)
        requires
            channel < self.running_peak@.len(),
        ensures
            r == self.running_peak@[channel as int],
    {
        self.running_peak[channel as usize]
    }

    /// Last-buffer mean square of a channel.
    pub fn mean_square_value(&self, channel: u16) -> (r: u32)
        requires
            channel < self.mean_square@.len(),
        ensures
            r == self.mean_square@[channel as int],
    {
        self.mean_square[channel as usize]
    }

    /// Stores the mean squares of the last buffer.
    pub fn set_mean_squares(&mut self, values: Vec<u32>)
        ensures
            *final(self) == (Telemetry { mean_square: values, ..*old(self) }),
    {
        self.mean_square = values;
    }

    /// Starts a new take: running peaks go back to zero.
    pub fn reset_running_peaks(&mut self)
        ensures
            final(self).running_peak@ == Seq::new(old(self).running_peak@.len(), |i: int| 0u32),
            *final(self) == (Telemetry { running_peak: final(self).running_peak, ..*old(self) }),
    {
        let mut c: usize = 0;
        while c < self.running_peak.len()
            invariant
                c <= self.running_peak@.len(),
                self.running_peak@.len() == old(self).running_peak@.len(),
                *self == (Telemetry { running_peak: self.running_peak, ..*old(self) }),
                forall|k: int| 0 <= k < c ==> #[trigger] self.running_peak@[k] == 0,
            decreases self.running_peak@.len() - c,
        {
            self.running_peak[c] = 0;
            c += 1;
        }
        proof {
            assert(self.running_peak@ =~= Seq::new(
                old(self).running_peak@.len(),
                |i: int| 0u32,
            ));
        }
    }
}

} // verus!
