//! The states of a recording.
use vstd::prelude::*;

verus! {

/// All states a recording can be in.
#[derive(Debug, Clone, Copy, PartialEq, Eq, Structural)]
pub enum RecorderState {
    /// No meter is live.
    Idle,
    /// The device is being opened.
    Opening,
    /// The meter is live; nothing is written.
    Armed,
    /// Frames are being written to the file.
    Recording,
    /// The ring is being drained and the file finalized.
    Stopping,
    /// The partial file is being closed and deleted.
    Cancelling,
    /// Resources are released.
    Closed,
    /// A failure that cannot be recovered from.
    Errored,
}

impl RecorderState {
    /// The state's name.
    pub open spec fn text(self) -> Seq<char> {
        match self {
            RecorderState::Idle => "Idle"@,
            RecorderState::Opening => "Opening"@,
            RecorderState::Armed => "Armed"@,
            RecorderState::Recording => "Recording"@,
            RecorderState::Stopping => "Stopping"@,
            RecorderState::Cancelling => "Cancelling"@,
            RecorderState::Closed => "Closed"@,
            RecorderState::Errored => "Errored"@,
        }
    }

    /// The state's name.
    pub fn name(self) -> (r: &'static str)
        ensures
            r@ == self.text(),
    {
        match self {
            RecorderState::Idle => "Idle",
            RecorderState::Opening => "Opening",
            RecorderState::Armed => "Armed",
            RecorderState::Recording => "Recording",
            RecorderState::Stopping => "Stopping",
            RecorderState::Cancelling => "Cancelling",
            RecorderState::Closed => "Closed",
            RecorderState::Errored => "Errored",
        }
    }

    /// Is the meter live?
    pub open spec fn meters(self) -> bool {
        self == RecorderState::Armed || self == RecorderState::Recording || self
            == RecorderState::Stopping || self == RecorderState::Cancelling
    }
}

/// Is the meter live in this state?
pub fn is_metering_state(state: RecorderState) -> (r: bool)
    ensures
        r == state.meters(),
{
    match state {
        RecorderState::Armed | RecorderState::Recording | RecorderState::Stopping
        | RecorderState::Cancelling => true,
        _ => false,
    }
}

/// The meter is live from arming until the take is closed.
pub proof fn law_meter_is_live_while_armed(s: RecorderState)
    ensures
        s is Armed || s is Recording || s is Stopping || s is Cancelling ==> s.meters(),
        s is Idle || s is Opening || s is Closed || s is Errored ==> !s.meters(),
{
}

/// Each state prints as its own name.
pub proof fn law_state_names(s: RecorderState)
    ensures
        s is Idle ==> s.text() == "Idle"@,
        s is Opening ==> s.text() == "Opening"@,
        s is Armed ==> s.text() == "Armed"@,
        s is Recording ==> s.text() == "Recording"@,
        s is Stopping ==> s.text() == "Stopping"@,
        s is Cancelling ==> s.text() == "Cancelling"@,
        s is Closed ==> s.text() == "Closed"@,
        s is Errored ==> s.text() == "Errored"@,
{
}

} // verus!
