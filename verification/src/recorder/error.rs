//! What can go wrong with a recording.
use super::state::RecorderState;
use super::RecordingSpec;
use crate::audio_devices::types::{DeviceError, DeviceId, InputCapabilities};
use crate::text::{debug_quoted, quoted};
use vstd::prelude::*;
use vstd::string::*;

verus! {

/// Failures to open a device or to query it.
#[derive(Debug)]
pub enum OpenError {
    DeviceNotFound { id: DeviceId },
    FormatUnsupported { requested: Box<RecordingSpec>, supported: Box<InputCapabilities> },
    BackendError(String),
    PermissionDenied,
}

impl From<DeviceError> for OpenError {
    fn from(e: DeviceError) -> (r: OpenError) {
        match e {
            DeviceError::DeviceNotFound { id } => OpenError::DeviceNotFound { id },
            DeviceError::BackendError(s) => OpenError::BackendError(s),
        }
    }
}

impl vstd::std_specs::convert::FromSpecImpl<DeviceError> for OpenError {
    open spec fn obeys_from_spec() -> bool {
        true
    }

    open spec fn from_spec(e: DeviceError) -> OpenError {
        match e {
            DeviceError::DeviceNotFound { id } => OpenError::DeviceNotFound { id },
            DeviceError::BackendError(s) => OpenError::BackendError(s),
        }
    }
}

impl OpenError {
    /// The text of the error.
    pub open spec fn text(&self) -> Seq<char> {
        match self {
            OpenError::DeviceNotFound { id } => "device not found: DeviceId("@ + debug_quoted(id@)
                + ")"@,
            OpenError::FormatUnsupported { .. } => "requested format unsupported by device"@,
            OpenError::BackendError(m) => "backend error: "@ + m@,
            OpenError::PermissionDenied => "permission denied"@,
        }
    }

    /// The text of the error.
    pub fn message(&self) -> (r: String)
        ensures
            r@ == self.text(),
    {
        match self {
            OpenError::DeviceNotFound { id } => {
                let mut s: String = "device not found: DeviceId(".to_owned();
                let q: String = quoted(id.0.as_str());
                s.append(q.as_str());
                s.append(")");
                s
            },
            OpenError::FormatUnsupported { .. } => {
                "requested format unsupported by device".to_owned()
            },
            OpenError::BackendError(m) => "backend error: ".to_owned().concat(m.as_str()),
            OpenError::PermissionDenied => "permission denied".to_owned(),
        }
    }
}

/// `prefix`, a state's name and a closing bracket.
fn with_state(prefix: &str, state: RecorderState) -> (r: String)
    ensures
        r@ == prefix@ + state.text() + ")"@,
{
    let mut s: String = prefix.to_owned();
    s.append(state.name());
    s.append(")");
    s
}

/// Failures to arm.
#[derive(Debug)]
pub enum ArmError {
    NotIdle { current: RecorderState },
    BuildStreamFailed(String),
}

impl ArmError {
    /// The text of the error.
    pub open spec fn text(&self) -> Seq<char> {
        match self {
            ArmError::NotIdle { current } => "not idle (current: "@ + current.text() + ")"@,
            ArmError::BuildStreamFailed(m) => "build_input_stream failed: "@ + m@,
        }
    }

    /// The text of the error.
    pub fn message(&self) -> (r: String)
        ensures
            r@ == self.text(),
    {
        match self {
            ArmError::NotIdle { current } => with_state("not idle (current: ", *current),
            ArmError::BuildStreamFailed(m) => "build_input_stream failed: ".to_owned().concat(
                m.as_str(),
            ),
        }
    }
}

/// Failures to start recording.
#[derive(Debug)]
pub enum RecordError {
    NotArmed { current: RecorderState },
    OutputPathInvalid(String),
    PermissionDenied(String),
    DiskFull,
}

impl RecordError {
    /// The text of the error.
    pub open spec fn text(&self) -> Seq<char> {
        match self {
            RecordError::NotArmed { current } => "not armed (current: "@ + current.text() + ")"@,
            RecordError::OutputPathInvalid(p) => "output path invalid: "@ + p@,
            RecordError::PermissionDenied(p) => "permission denied: "@ + p@,
            RecordError::DiskFull => "disk full"@,
        }
    }

    /// The text of the error.
    pub fn message(&self) -> (r: String)
        ensures
            r@ == self.text(),
    {
        match self {
            RecordError::NotArmed { current } => with_state("not armed (current: ", *current),
            RecordError::OutputPathInvalid(p) => "output path invalid: ".to_owned().concat(
                p.as_str(),
            ),
            RecordError::PermissionDenied(p) => "permission denied: ".to_owned().concat(
                p.as_str(),
            ),
            RecordError::DiskFull => "disk full".to_owned(),
        }
    }
}

/// Failures to stop.
#[derive(Debug)]
pub enum StopError {
    NotRecording { current: RecorderState },
    FinalizeFailed(String),
}

impl StopError {
    /// The text of the error.
    pub open spec fn text(&self) -> Seq<char> {
        match self {
            StopError::NotRecording { current } => "not recording (current: "@ + current.text()
                + ")"@,
            StopError::FinalizeFailed(m) => "finalize failed: "@ + m@,
        }
    }

    /// The text of the error.
    pub fn message(&self) -> (r: String)
        ensures
            r@ == self.text(),
    {
        match self {
            StopError::NotRecording { current } => with_state("not recording (current: ", *current),
            StopError::FinalizeFailed(m) => "finalize failed: ".to_owned().concat(m.as_str()),
        }
    }
}

/// Failures to cancel.
#[derive(Debug)]
pub enum CancelError {
    NotRecording { current: RecorderState },
}

impl CancelError {
    /// The text of the error.
    pub open spec fn text(&self) -> Seq<char> {
        match self {
            CancelError::NotRecording { current } => "not recording (current: "@ + current.text()
                + ")"@,
        }
    }

    /// The text of the error.
    pub fn message(&self) -> (r: String)
        ensures
            r@ == self.text(),
    {
        match self {
            CancelError::NotRecording { current } => with_state(
                "not recording (current: ",
                *current,
            ),
        }
    }
}

} // verus!
