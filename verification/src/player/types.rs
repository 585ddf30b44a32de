//! What to play, and how playback stands.
use crate::audio_devices::types::{BufferSize, DeviceId};
use std::sync::Arc;
use vstd::prelude::*;

verus! {

/// Where the frames come from.
#[derive(Debug, Clone)]
pub enum PlaybackSourceSpec {
    File { path: String },
    Buffer { samples: Arc<[u32]>, sample_rate: u32, channels: u16 },
}

/// What to play, and on which device.
#[derive(Debug, Clone)]
pub struct PlaybackSpec {
    pub device_id: DeviceId,
    pub source: PlaybackSourceSpec,
    pub buffer_size: BufferSize,
}

/// The states of a playback. `Ended` means that the source ran out and its last
/// samples were played; `Stopped` that playback was told to stop.
#[derive(Debug, Clone, Copy, PartialEq, Eq, Structural)]
pub enum PlaybackState {
    Idle,
    Loading,
    Playing,
    Paused,
    Stopped,
    Ended,
    Errored,
    Closed,
}

impl PlaybackState {
    /// The state's name.
    pub open spec fn text(self) -> Seq<char> {
        match self {
            PlaybackState::Idle => "Idle"@,
            PlaybackState::Loading => "Loading"@,
            PlaybackState::Playing => "Playing"@,
            PlaybackState::Paused => "Paused"@,
            PlaybackState::Stopped => "Stopped"@,
            PlaybackState::Ended => "Ended"@,
            PlaybackState::Errored => "Errored"@,
            PlaybackState::Closed => "Closed"@,
        }
    }

    /// The state's name.
    pub fn name(self) -> (r: &'static str)
        ensures
            r@ == self.text(),
    {
        match self {
            PlaybackState::Idle => "Idle",
            PlaybackState::Loading => "Loading",
            PlaybackState::Playing => "Playing",
            PlaybackState::Paused => "Paused",
            PlaybackState::Stopped => "Stopped",
            PlaybackState::Ended => "Ended",
            PlaybackState::Errored => "Errored",
            PlaybackState::Closed => "Closed",
        }
    }
}

/// A snapshot. Positions and durations in seconds are those in frames over the
/// sample rate.
#[derive(Debug, Clone, Copy, PartialEq, Eq)]
pub struct PlaybackStatus {
    pub state: PlaybackState,
    pub position_frames: u64,
    pub duration_frames: Option<u64>,
    pub sample_rate: u32,
    pub channels: u16,
    pub xrun_count: u32,
}

/// Per-channel levels of the last buffer.
#[derive(Debug, Clone)]
pub struct PlaybackLevels {
    pub peaks: Vec<u32>,
    pub mean_squares: Vec<u32>,
}

/// Each state prints as its own name.
pub proof fn law_state_names(s: PlaybackState)
    ensures
        s is Idle ==> s.text() == "Idle"@,
        s is Loading ==> s.text() == "Loading"@,
        s is Playing ==> s.text() == "Playing"@,
        s is Paused ==> s.text() == "Paused"@,
        s is Stopped ==> s.text() == "Stopped"@,
        s is Ended ==> s.text() == "Ended"@,
        s is Errored ==> s.text() == "Errored"@,
        s is Closed ==> s.text() == "Closed"@,
{
}

} // verus!
