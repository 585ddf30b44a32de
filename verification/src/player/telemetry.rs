//! What the output callback reports about itself.
use crate::meter::zeros;
use vstd::prelude::*;

verus! {

/// Levels and counters of one playback session. Levels are the bit patterns of
/// non-negative floats, one per channel.
#[derive(Debug)]
pub struct Telemetry {
    /// Largest magnitude in the last buffer.
    pub peak: Vec<u32>,
    /// Mean square of the last buffer.
    pub mean_square: Vec<u32>,
    /// Largest magnitude since the take began or since the last seek.
    pub running_peak: Vec<u32>,
    /// Callbacks that found too little in the ring.
    pub xrun_count: u32,
    /// Frame index of the next frame to be played.
    pub position_frames: u64,
}

impl Telemetry {
    /// One level per channel.
    pub open spec fn wf(&self, channels: u16) -> bool {
        &&& self.peak@.len() == channels
        &&& self.running_peak@.len() == channels
        &&& self.mean_square@.len() == channels
    }

    /// Silence at the first frame.
    pub fn new(channels: u16) -> (r: Telemetry)
        ensures
            r.wf(channels),
            r.peak@ == Seq::new(channels as nat, |i: int| 0u32),
            r.running_peak@ == Seq::new(channels as nat, |i: int| 0u32),
            r.mean_square@ == Seq::new(channels as nat, |i: int| 0u32),
            r.xrun_count == 0,
            r.position_frames == 0,
    {
        Telemetry {
            peak: zeros(channels),
            mean_square: zeros(channels),
            running_peak: zeros(channels),
            xrun_count: 0,
            position_frames: 0,
        }
    }

    /// Last-buffer peak of a channel.
    pub fn peak_value(&self, channel: u16) -> (r: u32)
        requires
            channel < self.peak@.len(),
        ensures
            r == self.peak@[channel as int],
    {
        self.peak[channel as usize]
    }

    /// Last-buffer mean square of a channel.
    pub fn mean_square_value(&self, channel: u16) -> (r: u32)
        requires
            channel < self.mean_square@.len(),
        ensures
            r == self.mean_square@[channel as int],
    {
        self.mean_square[channel as usize]
    }

    /// Peak of a channel since the take began or since the last seek.
    pub fn running_peak_value(&self, channel: u16) -> (r: u32)
        requires
            channel < self.running_peak@.len(),
        ensures
            r == self.running_peak@[channel as int],
    {
        self.running_peak[channel as usize]
    }

    /// Stores the mean squares of the last buffer.
    pub fn set_mean_squares(&mut self, values: Vec<u32>)
        ensures
            *final(self) == (Telemetry { mean_square: values, ..*old(self) }),
    {
        self.mean_square = values;
    }

    /// Running peaks go back to zero. A seek does this, so that the take's peak
    /// speaks of what was played since.
    pub fn reset_running_peaks(&mut self)
        ensures
            final(self).running_peak@ == Seq::new(old(self).running_peak@.len(), |i: int| 0u32),
            *final(self) == (Telemetry { running_peak: final(self).running_peak, ..*old(self) }),
    {
        let mut c: usize = 0;
        while c < self.running_peak.len()
            invariant
                c <= self.running_peak@.len(),
                self.running_peak@.len() == old(self).running_peak@.len(),
                *self == (Telemetry { running_peak: self.running_peak, ..*old(self) }),
                forall|k: int| 0 <= k < c ==> #[trigger] self.running_peak@[k] == 0,
            decreases self.running_peak@.len() - c,
        {
            self.running_peak[c] = 0;
            c += 1;
        }
        proof {
            assert(self.running_peak@ =~= Seq::new(
                old(self).running_peak@.len(),
                |i: int| 0u32,
            ));
        }
    }

    /// Moves the position to `frame`.
    pub fn set_position_frames(&mut self, frame: u64)
        ensures
            *final(self) == (Telemetry { position_frames: frame, ..*old(self) }),
    {
        self.position_frames = frame;
    }
}

} // verus!
