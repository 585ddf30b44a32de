//! The capture engine: from interleaved input buffers to a WAV / RF64 file.
pub mod device;
pub mod error;
pub mod handle;
pub mod rt;
pub mod state;
pub mod telemetry;
pub mod wav;
pub mod writer;

use crate::audio_devices::types::{BufferSize, DeviceId};
use vstd::prelude::*;

verus! {

/// What to record: a device, a format and a buffer size.
#[derive(Debug, Clone)]
pub struct RecordingSpec {
    pub device_id: DeviceId,
    pub sample_rate: u32,
    pub buffer_size: BufferSize,
    pub channels: u16,
}

/// A finished take.
#[derive(Debug, Clone)]
pub struct RecordedClip {
    pub path: String,
    /// A random (version 4) UUID.
    pub uuid: u128,
    pub sample_rate: u32,
    pub channels: u16,
    /// Its duration in seconds is this over the sample rate.
    pub frame_count: u64,
    /// Nanoseconds since the Unix epoch.
    pub started_at: u64,
    pub xrun_count: u32,
    pub dropped_samples: u64,
    /// Largest magnitude of each channel over the take.
    pub peaks: Vec<u32>,
}

} // verus!
