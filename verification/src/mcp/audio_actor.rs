//! The audio actor: it owns every session and serves one command at a time.
//!
//! Streams, writer threads and devices are worked on by whoever runs the actor's
//! loop. [`needed_work`] says what a command needs done before it is handled;
//! [`handle_command`] takes what was done and answers.
use super::types::RecordedClipJson;
use crate::audio_devices::types::{BufferSize, DeviceId};
use crate::ids::{hyphenated, is_random_uuid, new_uuid, uuid_text};
use crate::player::handle::{
    HandleView, PlaybackHandle, SeekError, StartError, StopError as PlaybackStopError,
    TransportError,
};
use crate::player::types::{PlaybackLevels, PlaybackSpec, PlaybackState, PlaybackStatus};
use crate::recorder::error::{ArmError, CancelError, OpenError, RecordError, StopError};
use crate::recorder::handle::{HandleView as RecordingView, RecordingHandle, WriterEnd};
use crate::recorder::state::RecorderState;
use crate::recorder::telemetry::Telemetry;
use crate::recorder::writer::WriterOutcome;
use crate::recorder::{RecordedClip, RecordingSpec};
use std::collections::HashMap;
use vstd::prelude::*;
use vstd::string::*;

verus! {

broadcast use vstd::std_specs::hash::group_hash_axioms;

/// How many commands may wait.
pub const COMMAND_QUEUE: usize = 64;

/// How many recordings may run at once.
pub const MAX_SESSIONS: usize = 8;

/// Why a command did not reach the actor, or its answer did not come back.
#[derive(Debug, Clone, Copy, PartialEq, Eq, Structural)]
pub enum ActorError {
    Gone,
    QueueFull,
    ReplyLost,
}

impl ActorError {
    /// The text of the error.
    pub open spec fn text(self) -> Seq<char> {
        match self {
            ActorError::Gone => "audio-management thread is gone"@,
            ActorError::QueueFull => "audio-command queue is full"@,
            ActorError::ReplyLost => "audio-management thread dropped the reply channel"@,
        }
    }

    /// The text of the error.
    pub fn message(self) -> (r: String)
        ensures
            r@ == self.text(),
    {
        match self {
            ActorError::Gone => "audio-management thread is gone".to_owned(),
            ActorError::QueueFull => "audio-command queue is full".to_owned(),
            ActorError::ReplyLost => "audio-management thread dropped the reply channel".to_owned(),
        }
    }
}

/// What came of sending a command to the queue.
#[derive(Debug, Clone, Copy, PartialEq, Eq, Structural)]
pub enum SendOutcome {
    Sent,
    Full,
    Disconnected,
}

/// What came of sending a command.
pub fn sent(outcome: SendOutcome) -> (r: Result<(), ActorError>)
    ensures
        match outcome {
            SendOutcome::Sent => r is Ok,
            SendOutcome::Full => r == Result::<(), ActorError>::Err(ActorError::QueueFull),
            SendOutcome::Disconnected => r == Result::<(), ActorError>::Err(ActorError::Gone),
        },
{
    match outcome {
        SendOutcome::Sent => Ok(()),
        SendOutcome::Full => Err(ActorError::QueueFull),
        SendOutcome::Disconnected => Err(ActorError::Gone),
    }
}

/// A command.
#[derive(Debug)]
pub enum Command {
    /// Opens, arms and records in one step; a failure leaves nothing behind.
    StartRecording { spec: RecordingSpec, output_path: String },
    Stop { session_id: u128 },
    Cancel { session_id: u128 },
    GetLevels { session_id: u128 },
    GetStatus { session_id: u128 },
    PlaybackStart { spec: PlaybackSpec },
    PlaybackPause { session_id: u128 },
    PlaybackResume { session_id: u128 },
    PlaybackStop { session_id: u128 },
    PlaybackSeek { session_id: u128, target_frames: u64 },
    PlaybackGetStatus { session_id: u128 },
    PlaybackGetLevels { session_id: u128 },
}

/// A started recording.
#[derive(Debug, Clone, Copy, PartialEq, Eq, Structural)]
pub struct StartReply {
    pub session_id: u128,
    /// Nanoseconds since the Unix epoch.
    pub started_at: u64,
}

/// Why a recording did not start.
#[derive(Debug)]
pub enum StartReplyError {
    Open(String),
    Arm(String),
    Record(String),
    TooManySessions,
}

impl StartReplyError {
    /// The text of the error.
    pub open spec fn text(&self) -> Seq<char> {
        match self {
            StartReplyError::Open(m) => "OpenError::"@ + m@,
            StartReplyError::Arm(m) => "ArmError::"@ + m@,
            StartReplyError::Record(m) => "RecordError::"@ + m@,
            StartReplyError::TooManySessions => "session limit reached (8)"@,
        }
    }

    /// The text of the error.
    pub fn message(&self) -> (r: String)
        ensures
            r@ == self.text(),
    {
        match self {
            StartReplyError::Open(m) => "OpenError::".to_owned().concat(m.as_str()),
            StartReplyError::Arm(m) => "ArmError::".to_owned().concat(m.as_str()),
            StartReplyError::Record(m) => "RecordError::".to_owned().concat(m.as_str()),
            StartReplyError::TooManySessions => "session limit reached (8)".to_owned(),
        }
    }
}

/// Where starting a recording failed.
#[derive(Debug)]
pub enum StartFailure {
    Open(OpenError),
    Arm(ArmError),
    Record(RecordError),
}

/// Why a command on a recording failed.
#[derive(Debug)]
pub enum SessionError {
    NotFound(u128),
    Stop(String),
    Cancel(String),
}

impl SessionError {
    /// The text of the error.
    pub open spec fn text(&self) -> Seq<char> {
        match self {
            SessionError::NotFound(id) => "session_not_found: "@ + hyphenated(*id),
            SessionError::Stop(m) => "StopError::"@ + m@,
            SessionError::Cancel(m) => "CancelError::"@ + m@,
        }
    }

    /// The text of the error.
    pub fn message(&self) -> (r: String)
        ensures
            r@ == self.text(),
    {
        match self {
            SessionError::NotFound(id) => {
                let t: String = uuid_text(*id);
                "session_not_found: ".to_owned().concat(t.as_str())
            },
            SessionError::Stop(m) => "StopError::".to_owned().concat(m.as_str()),
            SessionError::Cancel(m) => "CancelError::".to_owned().concat(m.as_str()),
        }
    }
}

/// A started playback.
#[derive(Debug, Clone, Copy, PartialEq, Eq)]
pub struct PlaybackStartReply {
    pub session_id: u128,
    /// Nanoseconds since the Unix epoch.
    pub started_at: u64,
    pub duration_frames: Option<u64>,
    pub sample_rate: u32,
    pub channels: u16,
}

/// Why a playback did not start.
#[derive(Debug)]
pub enum PlaybackStartError {
    Start(String),
    AlreadyPlaying { current_session: u128 },
}

impl PlaybackStartError {
    /// The text of the error.
    pub open spec fn text(&self) -> Seq<char> {
        match self {
            PlaybackStartError::Start(m) => "StartError::"@ + m@,
            PlaybackStartError::AlreadyPlaying { current_session } =>
                "a playback session is already active: "@ + hyphenated(*current_session),
        }
    }

    /// The text of the error.
    pub fn message(&self) -> (r: String)
        ensures
            r@ == self.text(),
    {
        match self {
            PlaybackStartError::Start(m) => "StartError::".to_owned().concat(m.as_str()),
            PlaybackStartError::AlreadyPlaying { current_session } => {
                let t: String = uuid_text(*current_session);
                "a playback session is already active: ".to_owned().concat(t.as_str())
            },
        }
    }
}

/// Why a command on the playback failed.
#[derive(Debug)]
pub enum PlaybackSessionError {
    NotFound(u128),
    Transport(String),
    Seek(String),
}

impl PlaybackSessionError {
    /// The text of the error.
    pub open spec fn text(&self) -> Seq<char> {
        match self {
            PlaybackSessionError::NotFound(id) => "session_not_found: "@ + hyphenated(*id),
            PlaybackSessionError::Transport(m) => "transport: "@ + m@,
            PlaybackSessionError::Seek(m) => "seek: "@ + m@,
        }
    }

    /// The text of the error.
    pub fn message(&self) -> (r: String)
        ensures
            r@ == self.text(),
    {
        match self {
            PlaybackSessionError::NotFound(id) => {
                let t: String = uuid_text(*id);
                "session_not_found: ".to_owned().concat(t.as_str())
            },
            PlaybackSessionError::Transport(m) => "transport: ".to_owned().concat(m.as_str()),
            PlaybackSessionError::Seek(m) => "seek: ".to_owned().concat(m.as_str()),
        }
    }
}

/// A recording session.
#[derive(Debug)]
pub struct Session {
    pub handle: RecordingHandle,
    /// Nanoseconds since the Unix epoch.
    pub started_at: u64,
    pub output_path: String,
    pub sample_rate: u32,
    pub channels: u16,
}

/// The playback session.
#[derive(Debug)]
pub struct PlaybackSession {
    pub handle: PlaybackHandle,
    pub session_id: u128,
    /// Nanoseconds since the Unix epoch.
    pub started_at: u64,
}

/// All sessions: recordings by identifier, and at most one playback.
#[derive(Debug)]
pub struct ActorState {
    pub recording: HashMap<u128, Session>,
    pub playback: Option<PlaybackSession>,
}

/// The levels of a recording; `None` stands for no signal at all.
#[derive(Debug)]
pub struct Levels {
    pub peaks: Vec<Option<u32>>,
    pub mean_squares: Vec<Option<u32>>,
}

/// How a recording stands.
#[derive(Debug, Clone, Copy, PartialEq, Eq, Structural)]
pub struct StatusReply {
    pub state: RecorderState,
    pub xrun_count: u32,
    pub dropped_samples: u64,
    pub elapsed_nanos: u64,
}

/// A cancelled recording: where its file was to be, and the partial file to
/// delete.
#[derive(Debug)]
pub struct CancelReply {
    pub path: String,
    pub delete: Option<String>,
}

/// What a pause or a resume came to.
#[derive(Debug, Clone, Copy, PartialEq, Eq, Structural)]
pub struct TransportReply {
    pub state: PlaybackState,
    pub position_frames: u64,
}

/// An answer.
#[derive(Debug)]
pub enum Reply {
    StartRecording(Result<StartReply, StartReplyError>),
    Stop(Result<RecordedClipJson, SessionError>),
    Cancel(Result<CancelReply, SessionError>),
    Levels(Result<Levels, SessionError>),
    Status(Result<StatusReply, SessionError>),
    PlaybackStart(Result<PlaybackStartReply, PlaybackStartError>),
    Transport(Result<TransportReply, PlaybackSessionError>),
    PlaybackStop(Result<PlaybackStatus, PlaybackSessionError>),
    Seek(Result<u64, PlaybackSessionError>),
    PlaybackStatus(Result<PlaybackStatus, PlaybackSessionError>),
    PlaybackLevels(Result<PlaybackLevels, PlaybackSessionError>),
}

/// What a command needs done before it is handled.
#[derive(Debug, Clone, Copy, PartialEq, Eq, Structural)]
pub enum Need {
    Nothing,
    /// Open the device, arm and start the writer; undo it all on a failure.
    StartInput,
    /// Tell the writer to stop and join it.
    StopWriter,
    /// Tell the writer to cancel and join it.
    CancelWriter,
    /// Open the device, load the source and start the stream.
    StartOutput,
    PauseStream,
    ResumeStream,
}

/// What was done.
#[derive(Debug)]
pub enum Done {
    Nothing,
    InputStarted(Result<RecordingHandle, StartFailure>),
    WriterEnded(WriterEnd),
    OutputStarted(Result<PlaybackHandle, StartError>),
    Stream(Result<(), String>),
}

impl ActorState {
    /// Every handle is well formed, and recordings are within their limit.
    pub open spec fn wf(&self) -> bool {
        &&& forall|id: u128| #[trigger]
            self.recording@.dom().contains(id) ==> self.recording@[id].handle.wf()
        &&& self.recording@.len() <= MAX_SESSIONS
        &&& self.playback matches Some(ps) ==> ps.handle.wf()
    }

    /// No sessions.
    pub fn new() -> (r: ActorState)
        ensures
            r.wf(),
            r.recording@ == Map::<u128, Session>::empty(),
            r.playback is None,
    {
        ActorState { recording: HashMap::new(), playback: None }
    }

    /// Is this the playback session?
    pub open spec fn plays(&self, session_id: u128) -> bool {
        self.playback matches Some(ps) && ps.session_id == session_id
    }
}

/// The work that a command needs in this state.
pub open spec fn need(state: ActorState, cmd: Command) -> Need {
    match cmd {
        Command::StartRecording { .. } => if state.recording@.len() >= MAX_SESSIONS {
            Need::Nothing
        } else {
            Need::StartInput
        },
        Command::Stop { session_id } => if state.recording@.dom().contains(session_id)
            && state.recording@[session_id].handle@.state == RecorderState::Recording {
            Need::StopWriter
        } else {
            Need::Nothing
        },
        Command::Cancel { session_id } => if state.recording@.dom().contains(session_id)
            && state.recording@[session_id].handle@.state == RecorderState::Recording {
            Need::CancelWriter
        } else {
            Need::Nothing
        },
        Command::PlaybackStart { .. } => if state.playback is Some {
            Need::Nothing
        } else {
            Need::StartOutput
        },
        Command::PlaybackPause { session_id } => if state.plays(session_id)
            && state.playback->Some_0.handle@.state == PlaybackState::Playing {
            Need::PauseStream
        } else {
            Need::Nothing
        },
        Command::PlaybackResume { session_id } => if state.plays(session_id)
            && state.playback->Some_0.handle@.state == PlaybackState::Paused {
            Need::ResumeStream
        } else {
            Need::Nothing
        },
        _ => Need::Nothing,
    }
}

/// Does what was done answer the need?
pub open spec fn meets(need: Need, done: Done) -> bool {
    match need {
        Need::Nothing => true,
        Need::StartInput => done matches Done::InputStarted(r) && (r matches Ok(h) ==> h.wf()),
        Need::StopWriter | Need::CancelWriter => done is WriterEnded,
        Need::StartOutput => done matches Done::OutputStarted(r) && (r matches Ok(h) ==> h.wf()),
        Need::PauseStream | Need::ResumeStream => done is Stream,
    }
}

/// Is the recording there, and is its writer running?
fn is_recording(state: &ActorState, session_id: u128) -> (r: bool)
    ensures
        r == (state.recording@.dom().contains(session_id)
            && state.recording@[session_id].handle@.state == RecorderState::Recording),
{
    match state.recording.get(&session_id) {
        None => false,
        Some(s) => s.handle.check_stop().is_ok(),
    }
}

/// The work that a command needs in this state.
pub fn needed_work(state: &ActorState, cmd: &Command) -> (r: Need)
    requires
        state.wf(),
    ensures
        r == need(*state, *cmd),
{
    match cmd {
        Command::StartRecording { .. } => if state.recording.len() >= MAX_SESSIONS {
            Need::Nothing
        } else {
            Need::StartInput
        },
        Command::Stop { session_id } => if is_recording(state, *session_id) {
            Need::StopWriter
        } else {
            Need::Nothing
        },
        Command::Cancel { session_id } => if is_recording(state, *session_id) {
            Need::CancelWriter
        } else {
            Need::Nothing
        },
        Command::PlaybackStart { .. } => if state.playback.is_some() {
            Need::Nothing
        } else {
            Need::StartOutput
        },
        Command::PlaybackPause { session_id } => match &state.playback {
            Some(ps) => if ps.session_id == *session_id && ps.handle.check_pause().is_ok() {
                Need::PauseStream
            } else {
                Need::Nothing
            },
            None => Need::Nothing,
        },
        Command::PlaybackResume { session_id } => match &state.playback {
            Some(ps) => if ps.session_id == *session_id && ps.handle.check_resume().is_ok() {
                Need::ResumeStream
            } else {
                Need::Nothing
            },
            None => Need::Nothing,
        },
        _ => Need::Nothing,
    }
}

/// The text of an error of opening.
pub open spec fn open_text(e: OpenError) -> Seq<char> {
    match e {
        OpenError::DeviceNotFound { id } => "DeviceNotFound("@ + id@ + ")"@,
        OpenError::FormatUnsupported { .. } => "FormatUnsupported"@,
        OpenError::BackendError(m) => "BackendError("@ + m@ + ")"@,
        OpenError::PermissionDenied => "PermissionDenied"@,
    }
}

/// The text of an error of arming.
pub open spec fn arm_text(e: ArmError) -> Seq<char> {
    match e {
        ArmError::NotIdle { current } => "NotIdle { "@ + current.text() + " }"@,
        ArmError::BuildStreamFailed(m) => "BuildStreamFailed("@ + m@ + ")"@,
    }
}

/// The text of an error of recording.
pub open spec fn record_text(e: RecordError) -> Seq<char> {
    match e {
        RecordError::NotArmed { current } => "NotArmed { "@ + current.text() + " }"@,
        RecordError::OutputPathInvalid(p) => "OutputPathInvalid("@ + p@ + ")"@,
        RecordError::PermissionDenied(p) => "PermissionDenied("@ + p@ + ")"@,
        RecordError::DiskFull => "DiskFull"@,
    }
}

/// The text of an error of stopping.
pub open spec fn stop_text(e: StopError) -> Seq<char> {
    match e {
        StopError::NotRecording { current } => "NotRecording { "@ + current.text() + " }"@,
        StopError::FinalizeFailed(m) => "FinalizeFailed("@ + m@ + ")"@,
    }
}

/// `head`, `middle` and `tail` in one text.
fn around(head: &str, middle: &str, tail: &str) -> (r: String)
    ensures
        r@ == head@ + middle@ + tail@,
{
    let mut s: String = head.to_owned();
    s.append(middle);
    s.append(tail);
    s
}

/// The text of an error of opening.
pub fn open_err_str(e: &OpenError) -> (r: String)
    ensures
        r@ == open_text(*e),
{
    match e {
        OpenError::DeviceNotFound { id } => around("DeviceNotFound(", id.0.as_str(), ")"),
        OpenError::FormatUnsupported { .. } => "FormatUnsupported".to_owned(),
        OpenError::BackendError(m) => around("BackendError(", m.as_str(), ")"),
        OpenError::PermissionDenied => "PermissionDenied".to_owned(),
    }
}

/// The text of an error of arming.
pub fn arm_err_str(e: &ArmError) -> (r: String)
    ensures
        r@ == arm_text(*e),
{
    match e {
        ArmError::NotIdle { current } => around("NotIdle { ", current.name(), " }"),
        ArmError::BuildStreamFailed(m) => around("BuildStreamFailed(", m.as_str(), ")"),
    }
}

/// The text of an error of recording.
pub fn record_err_str(e: &RecordError) -> (r: String)
    ensures
        r@ == record_text(*e),
{
    match e {
        RecordError::NotArmed { current } => around("NotArmed { ", current.name(), " }"),
        RecordError::OutputPathInvalid(p) => around("OutputPathInvalid(", p.as_str(), ")"),
        RecordError::PermissionDenied(p) => around("PermissionDenied(", p.as_str(), ")"),
        RecordError::DiskFull => "DiskFull".to_owned(),
    }
}

/// The text of an error of stopping.
pub fn stop_err_str(e: &StopError) -> (r: String)
    ensures
        r@ == stop_text(*e),
{
    match e {
        StopError::NotRecording { current } => around("NotRecording { ", current.name(), " }"),
        StopError::FinalizeFailed(m) => around("FinalizeFailed(", m.as_str(), ")"),
    }
}

/// What to record, from flat arguments.
pub fn spec_from_args(
    device_id: String,
    sample_rate: u32,
    buffer_size: BufferSize,
    channels: u16,
) -> (r: RecordingSpec)
    ensures
        r == (RecordingSpec { device_id: DeviceId(device_id), sample_rate, buffer_size, channels }),
{
    RecordingSpec { device_id: DeviceId(device_id), sample_rate, buffer_size, channels }
}

/// Does the answer say where starting failed?
pub open spec fn tells(e: StartReplyError, f: StartFailure) -> bool {
    match f {
        StartFailure::Open(o) => e matches StartReplyError::Open(m) && m@ == open_text(o),
        StartFailure::Arm(a) => e matches StartReplyError::Arm(m) && m@ == arm_text(a),
        StartFailure::Record(x) => e matches StartReplyError::Record(m) && m@ == record_text(x),
    }
}

/// Takes in a recording that was started, or was not, as session `id`.
pub fn start_session_as(
    state: &mut ActorState,
    spec: RecordingSpec,
    output_path: String,
    started: Result<RecordingHandle, StartFailure>,
    id: u128,
    now: u64,
) -> (r: Result<StartReply, StartReplyError>)
    requires
        old(state).wf(),
        started matches Ok(h) ==> h.wf(),
    ensures
        final(state).wf(),
        final(state).playback == old(state).playback,
        if old(state).recording@.len() >= MAX_SESSIONS {
            &&& r matches Err(e) && e == StartReplyError::TooManySessions
            &&& final(state).recording@ == old(state).recording@
        } else {
            match started {
                Err(f) => {
                    &&& r matches Err(e) && tells(e, f)
                    &&& final(state).recording@ == old(state).recording@
                },
                Ok(handle) => {
                    &&& r matches Ok(x) && x == (StartReply { session_id: id, started_at: now })
                    &&& final(state).recording@ == old(state).recording@.insert(
                        id,
                        Session {
                            handle,
                            started_at: now,
                            output_path,
                            sample_rate: spec.sample_rate,
                            channels: spec.channels,
                        },
                    )
                },
            }
        },
{
    if state.recording.len() >= MAX_SESSIONS {
        return Err(StartReplyError::TooManySessions);
    }
    match started {
        Err(StartFailure::Open(e)) => Err(StartReplyError::Open(open_err_str(&e))),
        Err(StartFailure::Arm(e)) => Err(StartReplyError::Arm(arm_err_str(&e))),
        Err(StartFailure::Record(e)) => Err(StartReplyError::Record(record_err_str(&e))),
        Ok(handle) => {
            let session = Session {
                handle,
                started_at: now,
                output_path,
                sample_rate: spec.sample_rate,
                channels: spec.channels,
            };
            let _ = state.recording.insert(id, session);
            Ok(StartReply { session_id: id, started_at: now })
        },
    }
}

/// A clip as it is told, with the time at which its session began.
pub fn clip_to_json(clip: RecordedClip, started_at: u64) -> (r: RecordedClipJson)
    ensures
        r.path == clip.path,
        r.clip_uuid@ == hyphenated(clip.uuid),
        r.sample_rate == clip.sample_rate,
        r.channels == clip.channels,
        r.frame_count == clip.frame_count,
        r.started_at_unix_seconds == started_at / 1_000_000_000,
        r.xrun_count == clip.xrun_count,
        r.dropped_samples == clip.dropped_samples,
        r.peaks == clip.peaks,
{
    RecordedClipJson {
        path: clip.path,
        clip_uuid: uuid_text(clip.uuid),
        sample_rate: clip.sample_rate,
        channels: clip.channels,
        frame_count: clip.frame_count,
        started_at_unix_seconds: started_at / 1_000_000_000,
        xrun_count: clip.xrun_count,
        dropped_samples: clip.dropped_samples,
        peaks: clip.peaks,
    }
}

/// Is this the text of a random identifier?
pub open spec fn is_random_uuid_text(s: Seq<char>) -> bool {
    exists|id: u128| #[trigger] hyphenated(id) == s && is_random_uuid(id)
}

/// What a stop does: an unknown session and one that is not recording stay as
/// they are; else the session ends, with a clip or with the writer's failure.
pub open spec fn stopped(
    before: ActorState,
    after: ActorState,
    session_id: u128,
    writer: WriterEnd,
    r: Result<RecordedClipJson, SessionError>,
) -> bool {
    if !before.recording@.dom().contains(session_id) {
        &&& r matches Err(SessionError::NotFound(id)) && id == session_id
        &&& after.recording@ == before.recording@
    } else {
        let s = before.recording@[session_id];
        if s.handle@.state != RecorderState::Recording {
            &&& r matches Err(SessionError::Stop(m)) && m@ == stop_text(
                StopError::NotRecording { current: s.handle@.state },
            )
            &&& after.recording@ == before.recording@
        } else {
            &&& after.recording@ == before.recording@.remove(session_id)
            &&& match writer {
                WriterEnd::Panicked => r matches Err(SessionError::Stop(m)) && m@
                    == "FinalizeFailed("@ + "writer thread panicked"@ + ")"@,
                WriterEnd::Failed(text) => r matches Err(SessionError::Stop(m)) && m@
                    == "FinalizeFailed("@ + text@ + ")"@,
                WriterEnd::Done(outcome) => match outcome.finalized {
                    None => r matches Err(SessionError::Stop(m)) && m@ == "FinalizeFailed("@
                        + "writer returned no clip"@ + ")"@,
                    Some(fin) => r matches Ok(clip) && clip.path == outcome.path
                        && clip.frame_count == fin.frame_count && clip.sample_rate
                        == s.handle@.sample_rate && clip.channels == s.handle@.channels
                        && clip.started_at_unix_seconds == s.started_at / 1_000_000_000
                        && clip.xrun_count == s.handle@.telemetry.xrun_count
                        && clip.dropped_samples == s.handle@.telemetry.dropped_samples
                        && clip.peaks@ == s.handle@.telemetry.running_peak@,
                },
            }
        }
    }
}

/// Stops a recording, given how its writer ended. The clip gets the identifier
/// `uuid`.
pub fn stop_session_as(
    state: &mut ActorState,
    session_id: u128,
    writer: WriterEnd,
    uuid: u128,
) -> (r: Result<RecordedClipJson, SessionError>)
    requires
        old(state).wf(),
    ensures
        final(state).wf(),
        final(state).playback == old(state).playback,
        stopped(*old(state), *final(state), session_id, writer, r),
        r matches Ok(clip) ==> clip.clip_uuid@ == hyphenated(uuid),
{
    match state.recording.remove(&session_id) {
        None => {
            proof {
                assert(state.recording@ =~= old(state).recording@);
            }
            Err(SessionError::NotFound(session_id))
        },
        Some(session) => {
            let mut s: Session = session;
            match s.handle.stop_as(writer, uuid) {
                Ok(clip) => {
                    let _ = s.handle.close();
                    Ok(clip_to_json(clip, s.started_at))
                },
                Err(e) => {
                    let m: String = stop_err_str(&e);
                    if let StopError::NotRecording { .. } = e {
                        let _ = state.recording.insert(session_id, s);
                        proof {
                            assert(state.recording@ =~= old(state).recording@);
                        }
                    } else {
                        let _ = s.handle.close();
                    }
                    Err(SessionError::Stop(m))
                },
            }
        },
    }
}

/// What a cancel does: an unknown session and one that is not recording stay as
/// they are; else the session ends, and its partial file is to be deleted.
pub open spec fn cancelled(
    before: ActorState,
    after: ActorState,
    session_id: u128,
    writer: WriterEnd,
    r: Result<CancelReply, SessionError>,
) -> bool {
    if !before.recording@.dom().contains(session_id) {
        &&& r matches Err(SessionError::NotFound(id)) && id == session_id
        &&& after.recording@ == before.recording@
    } else {
        let s = before.recording@[session_id];
        if s.handle@.state != RecorderState::Recording {
            &&& r matches Err(SessionError::Cancel(m)) && m@ == "NotRecording { "@
                + s.handle@.state.text() + " }"@
            &&& after.recording@ == before.recording@
        } else {
            &&& after.recording@ == before.recording@.remove(session_id)
            &&& r matches Ok(x) && x.path == s.output_path && x.delete == match writer {
                WriterEnd::Done(outcome) => if outcome.finalized is None {
                    Some(outcome.path)
                } else {
                    None
                },
                _ => None,
            }
        }
    }
}

/// Cancels a recording, given how its writer ended.
pub fn cancel_session(state: &mut ActorState, session_id: u128, writer: WriterEnd) -> (r: Result<
    CancelReply,
    SessionError,
>)
    requires
        old(state).wf(),
    ensures
        final(state).wf(),
        final(state).playback == old(state).playback,
        cancelled(*old(state), *final(state), session_id, writer, r),
{
    match state.recording.remove(&session_id) {
        None => {
            proof {
                assert(state.recording@ =~= old(state).recording@);
            }
            Err(SessionError::NotFound(session_id))
        },
        Some(session) => {
            let mut s: Session = session;
            match s.handle.cancel(writer) {
                Ok(delete) => {
                    let _ = s.handle.close();
                    Ok(CancelReply { path: s.output_path, delete })
                },
                Err(CancelError::NotRecording { current }) => {
                    let m: String = around("NotRecording { ", current.name(), " }");
                    let _ = state.recording.insert(session_id, s);
                    proof {
                        assert(state.recording@ =~= old(state).recording@);
                    }
                    Err(SessionError::Cancel(m))
                },
            }
        },
    }
}

/// The level of one channel of a handle, while its meter is live.
pub open spec fn live(h: RecordingHandle, levels: Seq<u32>, c: int) -> Option<u32> {
    if h@.state.meters() && 0 <= c < h@.channels {
        Some(levels[c])
    } else {
        None
    }
}

/// What the levels of a recording are.
pub open spec fn levels_of(
    state: ActorState,
    session_id: u128,
    r: Result<Levels, SessionError>,
) -> bool {
    if !state.recording@.dom().contains(session_id) {
        r matches Err(SessionError::NotFound(id)) && id == session_id
    } else {
        let s = state.recording@[session_id];
        r matches Ok(l) && l.peaks@ == Seq::new(
            s.channels as nat,
            |c: int| live(s.handle, s.handle@.telemetry.peak@, c),
        ) && l.mean_squares@ == Seq::new(
            s.channels as nat,
            |c: int| live(s.handle, s.handle@.telemetry.mean_square@, c),
        )
    }
}

/// The levels of a recording.
pub fn session_levels(state: &ActorState, session_id: u128) -> (r: Result<Levels, SessionError>)
    requires
        state.wf(),
    ensures
        levels_of(*state, session_id, r),
{
    match state.recording.get(&session_id) {
        None => Err(SessionError::NotFound(session_id)),
        Some(s) => {
            let mut peaks: Vec<Option<u32>> = Vec::new();
            let mut mean_squares: Vec<Option<u32>> = Vec::new();
            let mut c: u16 = 0;
            let ghost ps = Seq::new(
                s.channels as nat,
                |c: int| live(s.handle, s.handle@.telemetry.peak@, c),
            );
            let ghost ms = Seq::new(
                s.channels as nat,
                |c: int| live(s.handle, s.handle@.telemetry.mean_square@, c),
            );
            while c < s.channels
                invariant
                    c <= s.channels,
                    s.handle.wf(),
                    ps == Seq::new(
                        s.channels as nat,
                        |c: int| live(s.handle, s.handle@.telemetry.peak@, c),
                    ),
                    ms == Seq::new(
                        s.channels as nat,
                        |c: int| live(s.handle, s.handle@.telemetry.mean_square@, c),
                    ),
                    peaks@ == ps.take(c as int),
                    mean_squares@ == ms.take(c as int),
                decreases s.channels - c,
            {
                peaks.push(s.handle.peak_level(c));
                mean_squares.push(s.handle.mean_square_level(c));
                proof {
                    assert(peaks@ =~= ps.take(c + 1));
                    assert(mean_squares@ =~= ms.take(c + 1));
                }
                c += 1;
            }
            proof {
                assert(peaks@ =~= ps);
                assert(mean_squares@ =~= ms);
            }
            Ok(Levels { peaks, mean_squares })
        },
    }
}

/// The time from `then` to `now`; none where the clock went back.
pub open spec fn elapsed(then: u64, now: u64) -> u64 {
    if now > then {
        (now - then) as u64
    } else {
        0
    }
}

/// How a recording stands.
pub open spec fn status_of(
    state: ActorState,
    session_id: u128,
    now: u64,
    r: Result<StatusReply, SessionError>,
) -> bool {
    if !state.recording@.dom().contains(session_id) {
        r matches Err(SessionError::NotFound(id)) && id == session_id
    } else {
        let s = state.recording@[session_id];
        r matches Ok(x) && x == (StatusReply {
            state: s.handle@.state,
            xrun_count: s.handle@.telemetry.xrun_count,
            dropped_samples: s.handle@.telemetry.dropped_samples,
            elapsed_nanos: elapsed(s.started_at, now),
        })
    }
}

/// How a recording stands.
pub fn session_status(state: &ActorState, session_id: u128, now: u64) -> (r: Result<
    StatusReply,
    SessionError,
>)
    ensures
        status_of(*state, session_id, now, r),
{
    match state.recording.get(&session_id) {
        None => Err(SessionError::NotFound(session_id)),
        Some(s) => Ok(
            StatusReply {
                state: s.handle.state(),
                xrun_count: s.handle.xrun_count(),
                dropped_samples: s.handle.dropped_samples(),
                elapsed_nanos: if now > s.started_at {
                    now - s.started_at
                } else {
                    0
                },
            },
        ),
    }
}

/// Takes in a playback that was started, or was not, as session `id`.
pub fn start_playback_as(
    state: &mut ActorState,
    started: Result<PlaybackHandle, StartError>,
    id: u128,
    now: u64,
) -> (r: Result<PlaybackStartReply, PlaybackStartError>)
    requires
        old(state).wf(),
        started matches Ok(h) ==> h.wf(),
    ensures
        final(state).wf(),
        final(state).recording == old(state).recording,
        match old(state).playback {
            Some(ps) => {
                &&& r matches Err(e) && e == (PlaybackStartError::AlreadyPlaying {
                    current_session: ps.session_id,
                })
                &&& final(state).playback == old(state).playback
            },
            None => match started {
                Err(e) => {
                    &&& r matches Err(PlaybackStartError::Start(m)) && m@ == e.text()
                    &&& final(state).playback is None
                },
                Ok(handle) => {
                    &&& final(state).playback == Some(
                        PlaybackSession { handle, session_id: id, started_at: now },
                    )
                    &&& r matches Ok(x) && x == (PlaybackStartReply {
                        session_id: id,
                        started_at: now,
                        duration_frames: handle@.duration_frames,
                        sample_rate: handle@.sample_rate,
                        channels: handle@.channels,
                    })
                },
            },
        },
{
    if let Some(ps) = &state.playback {
        return Err(PlaybackStartError::AlreadyPlaying { current_session: ps.session_id });
    }
    match started {
        Err(e) => Err(PlaybackStartError::Start(e.message())),
        Ok(handle) => {
            let status: PlaybackStatus = handle.status();
            state.playback = Some(PlaybackSession { handle, session_id: id, started_at: now });
            Ok(
                PlaybackStartReply {
                    session_id: id,
                    started_at: now,
                    duration_frames: status.duration_frames,
                    sample_rate: status.sample_rate,
                    channels: status.channels,
                },
            )
        },
    }
}

/// The same session, with its handle in the same condition.
pub open spec fn same_session(a: PlaybackSession, b: PlaybackSession) -> bool {
    a.session_id == b.session_id && a.started_at == b.started_at && a.handle@ == b.handle@
}

/// The same playback, or none in both.
pub open spec fn same_playback(a: ActorState, b: ActorState) -> bool {
    match (a.playback, b.playback) {
        (None, None) => true,
        (Some(x), Some(y)) => same_session(x, y),
        _ => false,
    }
}

/// The session went on with a new condition of its handle.
pub open spec fn moved_to(
    before: ActorState,
    after: ActorState,
    h: HandleView,
) -> bool {
    &&& before.playback matches Some(x)
    &&& after.playback matches Some(y)
    &&& y.session_id == x.session_id
    &&& y.started_at == x.started_at
    &&& y.handle@ == h
}

/// What a pause does.
pub open spec fn paused(
    before: ActorState,
    after: ActorState,
    session_id: u128,
    stream: Result<(), String>,
    r: Result<TransportReply, PlaybackSessionError>,
) -> bool {
    if !before.plays(session_id) {
        &&& r matches Err(PlaybackSessionError::NotFound(id)) && id == session_id
        &&& same_playback(before, after)
    } else {
        let h = before.playback->Some_0.handle@;
        if h.state != PlaybackState::Playing {
            &&& r matches Err(PlaybackSessionError::Transport(m)) && m@ == (
            TransportError::NotPlaying { current: h.state }).text()
            &&& same_playback(before, after)
        } else {
            match stream {
                Err(e) => {
                    &&& r matches Err(PlaybackSessionError::Transport(m)) && m@ == (
                    TransportError::BackendFailed(e)).text()
                    &&& same_playback(before, after)
                },
                Ok(_) => {
                    &&& moved_to(
                        before,
                        after,
                        HandleView { state: PlaybackState::Paused, ..h },
                    )
                    &&& r matches Ok(x) && x == (TransportReply {
                        state: PlaybackState::Paused,
                        position_frames: h.telemetry.position_frames,
                    })
                },
            }
        }
    }
}

/// Pauses the playback, given what pausing the stream answered.
pub fn pause_playback(
    state: &mut ActorState,
    session_id: u128,
    stream: Result<(), String>,
) -> (r: Result<TransportReply, PlaybackSessionError>)
    requires
        old(state).wf(),
    ensures
        final(state).wf(),
        final(state).recording == old(state).recording,
        paused(*old(state), *final(state), session_id, stream, r),
{
    match state.playback.take() {
        None => Err(PlaybackSessionError::NotFound(session_id)),
        Some(session) => {
            let mut ps: PlaybackSession = session;
            if ps.session_id != session_id {
                state.playback = Some(ps);
                return Err(PlaybackSessionError::NotFound(session_id));
            }
            let result: Result<(), TransportError> = ps.handle.pause(stream);
            let reply: TransportReply = transport_reply(&ps);
            state.playback = Some(ps);
            match result {
                Err(e) => Err(PlaybackSessionError::Transport(e.message())),
                Ok(_) => Ok(reply),
            }
        },
    }
}

/// The state and position of a session.
fn transport_reply(ps: &PlaybackSession) -> (r: TransportReply)
    ensures
        r.state == ps.handle@.observed(),
        r.position_frames == ps.handle@.telemetry.position_frames,
{
    let st: PlaybackStatus = ps.handle.status();
    TransportReply { state: st.state, position_frames: st.position_frames }
}

/// What a resume does.
pub open spec fn resumed(
    before: ActorState,
    after: ActorState,
    session_id: u128,
    stream: Result<(), String>,
    r: Result<TransportReply, PlaybackSessionError>,
) -> bool {
    if !before.plays(session_id) {
        &&& r matches Err(PlaybackSessionError::NotFound(id)) && id == session_id
        &&& same_playback(before, after)
    } else {
        let h = before.playback->Some_0.handle@;
        if h.state != PlaybackState::Paused {
            &&& r matches Err(PlaybackSessionError::Transport(m)) && m@ == (
            TransportError::NotPaused { current: h.state }).text()
            &&& same_playback(before, after)
        } else {
            match stream {
                Err(e) => {
                    &&& r matches Err(PlaybackSessionError::Transport(m)) && m@ == (
                    TransportError::BackendFailed(e)).text()
                    &&& same_playback(before, after)
                },
                Ok(_) => {
                    let now = HandleView { state: PlaybackState::Playing, ..h };
                    &&& moved_to(before, after, now)
                    &&& r matches Ok(x) && x == (TransportReply {
                        state: now.observed(),
                        position_frames: h.telemetry.position_frames,
                    })
                },
            }
        }
    }
}

/// Resumes the playback, given what starting the stream answered.
pub fn resume_playback(
    state: &mut ActorState,
    session_id: u128,
    stream: Result<(), String>,
) -> (r: Result<TransportReply, PlaybackSessionError>)
    requires
        old(state).wf(),
    ensures
        final(state).wf(),
        final(state).recording == old(state).recording,
        resumed(*old(state), *final(state), session_id, stream, r),
{
    match state.playback.take() {
        None => Err(PlaybackSessionError::NotFound(session_id)),
        Some(session) => {
            let mut ps: PlaybackSession = session;
            if ps.session_id != session_id {
                state.playback = Some(ps);
                return Err(PlaybackSessionError::NotFound(session_id));
            }
            let result: Result<(), TransportError> = ps.handle.resume(stream);
            let reply: TransportReply = transport_reply(&ps);
            state.playback = Some(ps);
            match result {
                Err(e) => Err(PlaybackSessionError::Transport(e.message())),
                Ok(_) => Ok(reply),
            }
        },
    }
}

/// What a stop of the playback does: the session ends, whatever its state was.
/// Where another session plays, the answer names that one.
pub open spec fn playback_stopped(
    before: ActorState,
    after: ActorState,
    session_id: u128,
    r: Result<PlaybackStatus, PlaybackSessionError>,
) -> bool {
    match before.playback {
        None => {
            &&& r matches Err(PlaybackSessionError::NotFound(id)) && id == session_id
            &&& after.playback is None
        },
        Some(ps) => if ps.session_id != session_id {
            &&& r matches Err(PlaybackSessionError::NotFound(id)) && id == ps.session_id
            &&& after.playback == before.playback
        } else {
            &&& after.playback is None
            &&& if ps.handle@.active() {
                r matches Ok(status) && status == ps.handle@.stopped().snapshot()
            } else {
                r matches Err(PlaybackSessionError::Transport(m)) && m@ == (
                PlaybackStopError::NotActive { current: ps.handle@.observed() }).text()
            }
        },
    }
}

/// Stops the playback. Its stream is dropped and its reader joined afterwards.
pub fn stop_playback(state: &mut ActorState, session_id: u128) -> (r: Result<
    PlaybackStatus,
    PlaybackSessionError,
>)
    requires
        old(state).wf(),
    ensures
        final(state).wf(),
        final(state).recording == old(state).recording,
        playback_stopped(*old(state), *final(state), session_id, r),
{
    match state.playback.take() {
        None => Err(PlaybackSessionError::NotFound(session_id)),
        Some(session) => {
            let mut ps: PlaybackSession = session;
            if ps.session_id != session_id {
                let other: u128 = ps.session_id;
                state.playback = Some(ps);
                return Err(PlaybackSessionError::NotFound(other));
            }
            match ps.handle.stop() {
                Ok(status) => Ok(status),
                Err(e) => Err(PlaybackSessionError::Transport(e.message())),
            }
        },
    }
}

/// What a seek does. The answer is the frame that was asked for: the threads
/// that carry the seek out follow.
pub open spec fn seeked(
    before: ActorState,
    after: ActorState,
    session_id: u128,
    target: u64,
    r: Result<u64, PlaybackSessionError>,
) -> bool {
    if !before.plays(session_id) {
        &&& r matches Err(PlaybackSessionError::NotFound(id)) && id == session_id
        &&& same_playback(before, after)
    } else {
        let h = before.playback->Some_0.handle@;
        if !h.seekable() {
            &&& r matches Err(PlaybackSessionError::Seek(m)) && m@ == (SeekError::NotSeekable {
                current: h.observed(),
            }).text()
            &&& same_playback(before, after)
        } else if h.duration_frames matches Some(max) && target > max {
            &&& r matches Err(PlaybackSessionError::Seek(m)) && m@ == (SeekError::OutOfBounds {
                requested: target,
                max: h.duration_frames->Some_0,
            }).text()
            &&& same_playback(before, after)
        } else {
            &&& r matches Ok(f) && f == target
            &&& after.playback matches Some(y)
            &&& y.session_id == session_id
            &&& y.started_at == before.playback->Some_0.started_at
            &&& y.handle@.sought(h, target)
        }
    }
}

/// Asks the playback for a seek.
pub fn seek_playback(state: &mut ActorState, session_id: u128, target_frames: u64) -> (r: Result<
    u64,
    PlaybackSessionError,
>)
    requires
        old(state).wf(),
    ensures
        final(state).wf(),
        final(state).recording == old(state).recording,
        seeked(*old(state), *final(state), session_id, target_frames, r),
{
    match state.playback.take() {
        None => Err(PlaybackSessionError::NotFound(session_id)),
        Some(session) => {
            let mut ps: PlaybackSession = session;
            if ps.session_id != session_id {
                state.playback = Some(ps);
                return Err(PlaybackSessionError::NotFound(session_id));
            }
            let result: Result<(), SeekError> = ps.handle.seek(target_frames);
            state.playback = Some(ps);
            match result {
                Err(e) => Err(PlaybackSessionError::Seek(e.message())),
                Ok(_) => Ok(target_frames),
            }
        },
    }
}

/// How the playback stands.
pub fn playback_status(state: &ActorState, session_id: u128) -> (r: Result<
    PlaybackStatus,
    PlaybackSessionError,
>)
    ensures
        if state.plays(session_id) {
            r matches Ok(x) && x == state.playback->Some_0.handle@.snapshot()
        } else {
            r matches Err(PlaybackSessionError::NotFound(id)) && id == session_id
        },
{
    match &state.playback {
        None => Err(PlaybackSessionError::NotFound(session_id)),
        Some(ps) => if ps.session_id != session_id {
            Err(PlaybackSessionError::NotFound(session_id))
        } else {
            Ok(ps.handle.status())
        },
    }
}

/// The levels of the playback.
pub fn playback_levels(state: &ActorState, session_id: u128) -> (r: Result<
    PlaybackLevels,
    PlaybackSessionError,
>)
    requires
        state.wf(),
    ensures
        if state.plays(session_id) {
            r matches Ok(x) && x.peaks@ == state.playback->Some_0.handle@.telemetry.peak@
                && x.mean_squares@ == state.playback->Some_0.handle@.telemetry.mean_square@
        } else {
            r matches Err(PlaybackSessionError::NotFound(id)) && id == session_id
        },
{
    match &state.playback {
        None => Err(PlaybackSessionError::NotFound(session_id)),
        Some(ps) => if ps.session_id != session_id {
            Err(PlaybackSessionError::NotFound(session_id))
        } else {
            Ok(ps.handle.levels())
        },
    }
}

/// How a writer ended that was not asked.
pub open spec fn writer_end(done: Done) -> WriterEnd {
    match done {
        Done::WriterEnded(w) => w,
        _ => WriterEnd::Panicked,
    }
}

/// What a stream answered that was not asked.
pub open spec fn stream_answer(done: Done) -> Result<(), String> {
    match done {
        Done::Stream(r) => r,
        _ => Ok(()),
    }
}

/// What is answered to a command, and what it does to the sessions.
pub open spec fn handled(
    cmd: Command,
    before: ActorState,
    after: ActorState,
    done: Done,
    now: u64,
    reply: Reply,
) -> bool {
    match cmd {
        Command::StartRecording { spec, output_path } => {
            &&& after.playback == before.playback
            &&& reply matches Reply::StartRecording(r)
            &&& if before.recording@.len() >= MAX_SESSIONS {
                &&& r matches Err(e) && e == StartReplyError::TooManySessions
                &&& after.recording@ == before.recording@
            } else {
                match done->InputStarted_0 {
                    Err(f) => {
                        &&& r matches Err(e) && tells(e, f)
                        &&& after.recording@ == before.recording@
                    },
                    Ok(handle) => {
                        &&& r matches Ok(x) && is_random_uuid(x.session_id) && x.started_at == now
                        &&& after.recording@ == before.recording@.insert(
                            r->Ok_0.session_id,
                            Session {
                                handle,
                                started_at: now,
                                output_path,
                                sample_rate: spec.sample_rate,
                                channels: spec.channels,
                            },
                        )
                    },
                }
            }
        },
        Command::Stop { session_id } => {
            &&& after.playback == before.playback
            &&& reply matches Reply::Stop(r) && stopped(
                before,
                after,
                session_id,
                writer_end(done),
                r,
            ) && (r matches Ok(clip) ==> is_random_uuid_text(clip.clip_uuid@))
        },
        Command::Cancel { session_id } => {
            &&& after.playback == before.playback
            &&& reply matches Reply::Cancel(r) && cancelled(
                before,
                after,
                session_id,
                writer_end(done),
                r,
            )
        },
        Command::GetLevels { session_id } => {
            &&& after == before
            &&& reply matches Reply::Levels(r) && levels_of(before, session_id, r)
        },
        Command::GetStatus { session_id } => {
            &&& after == before
            &&& reply matches Reply::Status(r) && status_of(before, session_id, now, r)
        },
        Command::PlaybackStart { spec } => {
            &&& after.recording == before.recording
            &&& reply matches Reply::PlaybackStart(r)
            &&& match before.playback {
                Some(ps) => {
                    &&& r matches Err(e) && e == (PlaybackStartError::AlreadyPlaying {
                        current_session: ps.session_id,
                    })
                    &&& after.playback == before.playback
                },
                None => match done->OutputStarted_0 {
                    Err(e) => {
                        &&& r matches Err(PlaybackStartError::Start(m)) && m@ == e.text()
                        &&& after.playback is None
                    },
                    Ok(handle) => {
                        &&& r matches Ok(x) && is_random_uuid(x.session_id) && x.started_at == now
                            && x.duration_frames == handle@.duration_frames && x.sample_rate
                            == handle@.sample_rate && x.channels == handle@.channels
                        &&& after.playback == Some(
                            PlaybackSession {
                                handle,
                                session_id: r->Ok_0.session_id,
                                started_at: now,
                            },
                        )
                    },
                },
            }
        },
        Command::PlaybackPause { session_id } => {
            &&& after.recording == before.recording
            &&& reply matches Reply::Transport(r) && paused(
                before,
                after,
                session_id,
                stream_answer(done),
                r,
            )
        },
        Command::PlaybackResume { session_id } => {
            &&& after.recording == before.recording
            &&& reply matches Reply::Transport(r) && resumed(
                before,
                after,
                session_id,
                stream_answer(done),
                r,
            )
        },
        Command::PlaybackStop { session_id } => {
            &&& after.recording == before.recording
            &&& reply matches Reply::PlaybackStop(r) && playback_stopped(
                before,
                after,
                session_id,
                r,
            )
        },
        Command::PlaybackSeek { session_id, target_frames } => {
            &&& after.recording == before.recording
            &&& reply matches Reply::Seek(r) && seeked(
                before,
                after,
                session_id,
                target_frames,
                r,
            )
        },
        Command::PlaybackGetStatus { session_id } => {
            &&& after == before
            &&& reply matches Reply::PlaybackStatus(r) && if before.plays(session_id) {
                r matches Ok(x) && x == before.playback->Some_0.handle@.snapshot()
            } else {
                r matches Err(PlaybackSessionError::NotFound(id)) && id == session_id
            }
        },
        Command::PlaybackGetLevels { session_id } => {
            &&& after == before
            &&& reply matches Reply::PlaybackLevels(r) && if before.plays(session_id) {
                r matches Ok(x) && x.peaks@ == before.playback->Some_0.handle@.telemetry.peak@
                    && x.mean_squares@ == before.playback->Some_0.handle@.telemetry.mean_square@
            } else {
                r matches Err(PlaybackSessionError::NotFound(id)) && id == session_id
            }
        },
    }
}

/// Handles a command, given the work that was done for it.
pub fn handle_command(cmd: Command, state: &mut ActorState, done: Done, now: u64) -> (reply: Reply)
    requires
        old(state).wf(),
        meets(need(*old(state), cmd), done),
    ensures
        final(state).wf(),
        handled(cmd, *old(state), *final(state), done, now, reply),
{
    match cmd {
        Command::StartRecording { spec, output_path } => {
            let started: Result<RecordingHandle, StartFailure> = match done {
                Done::InputStarted(r) => r,
                _ => {
                    return Reply::StartRecording(Err(StartReplyError::TooManySessions));
                },
            };
            if state.recording.len() >= MAX_SESSIONS {
                return Reply::StartRecording(Err(StartReplyError::TooManySessions));
            }
            let id: u128 = new_uuid();
            Reply::StartRecording(start_session_as(state, spec, output_path, started, id, now))
        },
        Command::Stop { session_id } => {
            let writer: WriterEnd = taken_writer(done);
            let uuid: u128 = new_uuid();
            Reply::Stop(stop_session_as(state, session_id, writer, uuid))
        },
        Command::Cancel { session_id } => {
            let writer: WriterEnd = taken_writer(done);
            Reply::Cancel(cancel_session(state, session_id, writer))
        },
        Command::GetLevels { session_id } => Reply::Levels(session_levels(state, session_id)),
        Command::GetStatus { session_id } => Reply::Status(session_status(state, session_id, now)),
        Command::PlaybackStart { .. } => {
            if let Some(ps) = &state.playback {
                return Reply::PlaybackStart(
                    Err(PlaybackStartError::AlreadyPlaying { current_session: ps.session_id }),
                );
            }
            match done {
                Done::OutputStarted(started) => {
                    let id: u128 = new_uuid();
                    Reply::PlaybackStart(start_playback_as(state, started, id, now))
                },
                _ => Reply::PlaybackStart(Err(PlaybackStartError::Start(String::new()))),
            }
        },
        Command::PlaybackPause { session_id } => {
            let stream: Result<(), String> = taken_stream(done);
            Reply::Transport(pause_playback(state, session_id, stream))
        },
        Command::PlaybackResume { session_id } => {
            let stream: Result<(), String> = taken_stream(done);
            Reply::Transport(resume_playback(state, session_id, stream))
        },
        Command::PlaybackStop { session_id } => Reply::PlaybackStop(
            stop_playback(state, session_id),
        ),
        Command::PlaybackSeek { session_id, target_frames } => Reply::Seek(
            seek_playback(state, session_id, target_frames),
        ),
        Command::PlaybackGetStatus { session_id } => Reply::PlaybackStatus(
            playback_status(state, session_id),
        ),
        Command::PlaybackGetLevels { session_id } => Reply::PlaybackLevels(
            playback_levels(state, session_id),
        ),
    }
}

fn taken_writer(done: Done) -> (r: WriterEnd)
    ensures
        r == writer_end(done),
{
    match done {
        Done::WriterEnded(w) => w,
        _ => WriterEnd::Panicked,
    }
}

fn taken_stream(done: Done) -> (r: Result<(), String>)
    ensures
        r == stream_answer(done),
{
    match done {
        Done::Stream(r) => r,
        _ => Ok(()),
    }
}

/// Takes in the telemetry of a recording as its capture thread left it. Where
/// there is no such session, or the telemetry has not one level per channel,
/// nothing changes.
pub fn load_recording(state: &mut ActorState, session_id: u128, telemetry: Telemetry) -> (r: bool)
    requires
        old(state).wf(),
    ensures
        final(state).wf(),
        final(state).playback == old(state).playback,
        r == (old(state).recording@.dom().contains(session_id) && telemetry.wf(
            old(state).recording@[session_id].handle@.channels,
        )),
        !r ==> final(state).recording@ == old(state).recording@,
        r ==> final(state).recording@.dom() == old(state).recording@.dom(),
        r ==> forall|id: u128|
            id != session_id && #[trigger] old(state).recording@.dom().contains(id)
                ==> final(state).recording@[id] == old(state).recording@[id],
        r ==> final(state).recording@[session_id].handle@ == (RecordingView {
            telemetry,
            ..old(state).recording@[session_id].handle@
        }),
        r ==> final(state).recording@[session_id] == (Session {
            handle: final(state).recording@[session_id].handle,
            ..old(state).recording@[session_id]
        }),
{
    match state.recording.remove(&session_id) {
        None => {
            proof {
                assert(state.recording@ =~= old(state).recording@);
            }
            false
        },
        Some(session) => {
            let mut s: Session = session;
            let n: usize = s.handle.channels() as usize;
            let fits: bool = telemetry.peak.len() == n && telemetry.running_peak.len() == n
                && telemetry.mean_square.len() == n;
            if fits {
                s.handle.load_telemetry(telemetry);
            }
            let _ = state.recording.insert(session_id, s);
            proof {
                assert(state.recording@.dom() =~= old(state).recording@.dom());
                if !fits {
                    assert(state.recording@ =~= old(state).recording@);
                }
            }
            fits
        },
    }
}

/// Was the command refused, before anything was done for it?
pub open spec fn refused(before: ActorState, cmd: Command) -> bool {
    match cmd {
        Command::StartRecording { .. } => before.recording@.len() >= MAX_SESSIONS,
        Command::Stop { session_id } | Command::Cancel { session_id } => {
            !(before.recording@.dom().contains(session_id)
                && before.recording@[session_id].handle@.state == RecorderState::Recording)
        },
        Command::GetLevels { session_id } | Command::GetStatus { session_id } => {
            !before.recording@.dom().contains(session_id)
        },
        Command::PlaybackStart { .. } => before.playback is Some,
        Command::PlaybackPause { session_id } => !(before.plays(session_id)
            && before.playback->Some_0.handle@.state == PlaybackState::Playing),
        Command::PlaybackResume { session_id } => !(before.plays(session_id)
            && before.playback->Some_0.handle@.state == PlaybackState::Paused),
        Command::PlaybackStop { session_id }
        | Command::PlaybackGetStatus { session_id }
        | Command::PlaybackGetLevels { session_id } => !before.plays(session_id),
        Command::PlaybackSeek { session_id, target_frames } => !(before.plays(session_id)
            && before.playback->Some_0.handle@.seekable()
            && !(before.playback->Some_0.handle@.duration_frames matches Some(max)
            && target_frames > max)),
    }
}

/// Is the answer an error?
pub open spec fn is_error(reply: Reply) -> bool {
    match reply {
        Reply::StartRecording(r) => r is Err,
        Reply::Stop(r) => r is Err,
        Reply::Cancel(r) => r is Err,
        Reply::Levels(r) => r is Err,
        Reply::Status(r) => r is Err,
        Reply::PlaybackStart(r) => r is Err,
        Reply::Transport(r) => r is Err,
        Reply::PlaybackStop(r) => r is Err,
        Reply::Seek(r) => r is Err,
        Reply::PlaybackStatus(r) => r is Err,
        Reply::PlaybackLevels(r) => r is Err,
    }
}

/// A refused command is answered by an error and changes no session, whatever was
/// done for it.
pub proof fn law_refusals_change_nothing(
    cmd: Command,
    before: ActorState,
    after: ActorState,
    done: Done,
    now: u64,
    reply: Reply,
)
    requires
        handled(cmd, before, after, done, now, reply),
        refused(before, cmd),
    ensures
        is_error(reply),
        after.recording@ == before.recording@,
        same_playback(before, after),
{
}

/// A command touches no recording but the one it names: every other one is still
/// there, unchanged. A new one replaces none, unless the random identifier is one
/// that is in use.
pub proof fn law_sessions_are_independent(
    cmd: Command,
    before: ActorState,
    after: ActorState,
    done: Done,
    now: u64,
    reply: Reply,
    id: u128,
)
    requires
        handled(cmd, before, after, done, now, reply),
        before.recording@.dom().contains(id),
        !(cmd matches Command::Stop { session_id } && session_id == id),
        !(cmd matches Command::Cancel { session_id } && session_id == id),
        !(reply matches Reply::StartRecording(Ok(x)) && x.session_id == id),
    ensures
        after.recording@.dom().contains(id),
        after.recording@[id] == before.recording@[id],
{
}

/// Recordings and the playback go on side by side: a command on a recording leaves
/// the playback alone, and one on the playback leaves all recordings alone.
pub proof fn law_recording_and_playback_are_independent(
    cmd: Command,
    before: ActorState,
    after: ActorState,
    done: Done,
    now: u64,
    reply: Reply,
)
    requires
        handled(cmd, before, after, done, now, reply),
    ensures
        after.playback == before.playback || after.recording == before.recording,
{
}

/// A recording starts while fewer than eight run: it is in the sessions from then on,
/// under the identifier that is answered, and those that ran before still do. With
/// eight, none starts.
pub proof fn law_recordings_start_up_to_eight(
    before: ActorState,
    after: ActorState,
    spec: RecordingSpec,
    output_path: String,
    started: Result<RecordingHandle, StartFailure>,
    now: u64,
    reply: Reply,
)
    requires
        handled(
            Command::StartRecording { spec, output_path },
            before,
            after,
            Done::InputStarted(started),
            now,
            reply,
        ),
    ensures
        reply is StartRecording,
        reply->StartRecording_0 is Ok <==> before.recording@.len() < 8 && started is Ok,
        reply->StartRecording_0 is Err ==> after.recording@ == before.recording@,
        reply->StartRecording_0 matches Ok(x) ==> {
            &&& x.started_at == now
            &&& after.recording@.dom() == before.recording@.dom().insert(x.session_id)
            &&& after.recording@[x.session_id].handle == started->Ok_0
            &&& after.recording@[x.session_id].started_at == now
            &&& after.recording@[x.session_id].output_path == output_path
            &&& after.recording@[x.session_id].sample_rate == spec.sample_rate
            &&& after.recording@[x.session_id].channels == spec.channels
        },
{
    if reply->StartRecording_0 is Ok {
        assert(after.recording@.dom() =~= before.recording@.dom().insert(
            reply->StartRecording_0->Ok_0.session_id,
        ));
    }
}

/// A recording that is stopped is gone, and what its writer left is answered: the file,
/// its frames, the format, what was lost, and the second in which it began.
pub proof fn law_stopped_recording_is_answered(
    before: ActorState,
    after: ActorState,
    id: u128,
    outcome: WriterOutcome,
    now: u64,
    reply: Reply,
)
    requires
        handled(
            Command::Stop { session_id: id },
            before,
            after,
            Done::WriterEnded(WriterEnd::Done(outcome)),
            now,
            reply,
        ),
        before.recording@.dom().contains(id),
        before.recording@[id].handle@.state == RecorderState::Recording,
        outcome.finalized is Some,
    ensures
        !after.recording@.dom().contains(id),
        reply matches Reply::Stop(Ok(clip)) && {
            let s = before.recording@[id];
            &&& clip.path == outcome.path
            &&& clip.frame_count == outcome.finalized->Some_0.frame_count
            &&& clip.sample_rate == s.handle@.sample_rate
            &&& clip.channels == s.handle@.channels
            &&& clip.started_at_unix_seconds * 1_000_000_000 <= s.started_at < (
            clip.started_at_unix_seconds + 1) * 1_000_000_000
            &&& clip.dropped_samples == s.handle@.telemetry.dropped_samples
            &&& clip.xrun_count == s.handle@.telemetry.xrun_count
            &&& clip.peaks@ == s.handle@.telemetry.running_peak@
        },
{
}

/// A recording that is cancelled is gone, and the file that its writer left unfinished
/// is to be deleted; one that its writer had finished is not.
pub proof fn law_cancelled_recording_is_deleted(
    before: ActorState,
    after: ActorState,
    id: u128,
    outcome: WriterOutcome,
    now: u64,
    reply: Reply,
)
    requires
        handled(
            Command::Cancel { session_id: id },
            before,
            after,
            Done::WriterEnded(WriterEnd::Done(outcome)),
            now,
            reply,
        ),
        before.recording@.dom().contains(id),
        before.recording@[id].handle@.state == RecorderState::Recording,
    ensures
        !after.recording@.dom().contains(id),
        reply matches Reply::Cancel(Ok(x)) && x.path == before.recording@[id].output_path && (
        outcome.finalized is None ==> x.delete == Some(outcome.path)) && (outcome.finalized is Some
            ==> x.delete is None),
{
}

/// How a recording stands is answered with the time since it began, and zero where the
/// clock went back.
pub proof fn law_status_tells_the_time(
    before: ActorState,
    after: ActorState,
    id: u128,
    done: Done,
    now: u64,
    reply: Reply,
)
    requires
        handled(Command::GetStatus { session_id: id }, before, after, done, now, reply),
        before.recording@.dom().contains(id),
    ensures
        after == before,
        reply matches Reply::Status(Ok(x)) && {
            let s = before.recording@[id];
            &&& x.state == s.handle@.state
            &&& now >= s.started_at ==> s.started_at + x.elapsed_nanos == now
            &&& now < s.started_at ==> x.elapsed_nanos == 0
            &&& x.xrun_count == s.handle@.telemetry.xrun_count
            &&& x.dropped_samples == s.handle@.telemetry.dropped_samples
        },
{
}

/// The levels of a recording are those of its last buffer, one for each channel, while
/// it runs; a recording that is not armed yet or is over has none.
pub proof fn law_levels_are_of_the_last_buffer(
    before: ActorState,
    after: ActorState,
    id: u128,
    done: Done,
    now: u64,
    reply: Reply,
    c: int,
)
    requires
        handled(Command::GetLevels { session_id: id }, before, after, done, now, reply),
        before.recording@.dom().contains(id),
        before.recording@[id].channels == before.recording@[id].handle@.channels,
        0 <= c < before.recording@[id].channels,
    ensures
        after == before,
        reply matches Reply::Levels(Ok(l)) && {
            let s = before.recording@[id];
            &&& l.peaks@.len() == s.channels
            &&& l.mean_squares@.len() == s.channels
            &&& s.handle@.state is Armed || s.handle@.state is Recording
                || s.handle@.state is Stopping || s.handle@.state is Cancelling ==> l.peaks@[c]
                == Some(s.handle@.telemetry.peak@[c]) && l.mean_squares@[c] == Some(
                s.handle@.telemetry.mean_square@[c],
            )
            &&& s.handle@.state is Idle || s.handle@.state is Opening || s.handle@.state is Closed
                || s.handle@.state is Errored ==> l.peaks@[c] is None && l.mean_squares@[c] is None
        },
{
}

/// A playback that is paused and resumed plays as it did before, and the answer of each
/// tells where it is.
pub proof fn law_resume_undoes_pause(
    before: ActorState,
    held: ActorState,
    after: ActorState,
    id: u128,
    t0: u64,
    t1: u64,
    first: Reply,
    second: Reply,
)
    requires
        before.plays(id),
        before.playback->Some_0.handle@.state == PlaybackState::Playing,
        handled(
            Command::PlaybackPause { session_id: id },
            before,
            held,
            Done::Stream(Ok(())),
            t0,
            first,
        ),
        handled(
            Command::PlaybackResume { session_id: id },
            held,
            after,
            Done::Stream(Ok(())),
            t1,
            second,
        ),
    ensures
        held.plays(id),
        held.playback->Some_0.handle@.state == PlaybackState::Paused,
        held.playback->Some_0.handle@.telemetry == before.playback->Some_0.handle@.telemetry,
        held.playback->Some_0.handle@.signals == before.playback->Some_0.handle@.signals,
        after.plays(id),
        after.playback->Some_0.handle@ == before.playback->Some_0.handle@,
        after.playback->Some_0.started_at == before.playback->Some_0.started_at,
        first matches Reply::Transport(Ok(x)) && x.state == PlaybackState::Paused
            && x.position_frames == before.playback->Some_0.handle@.telemetry.position_frames,
        second matches Reply::Transport(Ok(x)) && x.position_frames
            == before.playback->Some_0.handle@.telemetry.position_frames,
{
}

/// A playback that is stopped is gone, and the answer tells where it was; whatever is
/// asked of it afterwards is answered that there is no such session.
pub proof fn law_stopped_playback_is_gone(
    before: ActorState,
    after: ActorState,
    id: u128,
    done: Done,
    now: u64,
    reply: Reply,
)
    requires
        before.plays(id),
        before.playback->Some_0.handle@.state != PlaybackState::Closed,
        handled(Command::PlaybackStop { session_id: id }, before, after, done, now, reply),
    ensures
        after.playback is None,
        !after.plays(id),
        reply matches Reply::PlaybackStop(Ok(x)) && x.state == PlaybackState::Stopped
            && x.position_frames == before.playback->Some_0.handle@.telemetry.position_frames
            && x.sample_rate == before.playback->Some_0.handle@.sample_rate && x.channels
            == before.playback->Some_0.handle@.channels,
{
}

/// A playback that plays takes a seek to any frame up to the one behind its last, and
/// refuses one beyond it; once taken, the frame is what the reader is to go to.
pub proof fn law_seek_is_taken_up_to_the_end(
    before: ActorState,
    after: ActorState,
    id: u128,
    frame: u64,
    done: Done,
    now: u64,
    reply: Reply,
)
    requires
        before.plays(id),
        before.playback->Some_0.handle@.state == PlaybackState::Playing,
        handled(
            Command::PlaybackSeek { session_id: id, target_frames: frame },
            before,
            after,
            done,
            now,
            reply,
        ),
    ensures
        reply is Seek,
        reply->Seek_0 is Ok <==> !(before.playback->Some_0.handle@.duration_frames is Some && frame
            > before.playback->Some_0.handle@.duration_frames->Some_0),
        reply->Seek_0 matches Ok(x) ==> {
            &&& x == frame
            &&& after.plays(id)
            &&& after.playback->Some_0.handle@.signals.seek_pending
            &&& after.playback->Some_0.handle@.signals.seek_target == frame
            &&& after.playback->Some_0.handle@.state == PlaybackState::Playing
        },
        reply->Seek_0 is Err ==> same_playback(before, after),
{
}

/// One playback runs at a time: it starts where none runs, under the identifier that is
/// answered, and a second one is answered with the identifier of the first.
pub proof fn law_one_playback_at_a_time(
    before: ActorState,
    after: ActorState,
    spec: PlaybackSpec,
    started: Result<PlaybackHandle, StartError>,
    now: u64,
    reply: Reply,
)
    requires
        handled(
            Command::PlaybackStart { spec },
            before,
            after,
            Done::OutputStarted(started),
            now,
            reply,
        ),
    ensures
        reply is PlaybackStart,
        reply->PlaybackStart_0 is Ok <==> before.playback is None && started is Ok,
        reply->PlaybackStart_0 matches Ok(x) ==> after.plays(x.session_id)
            && after.playback->Some_0.handle == started->Ok_0 && after.playback->Some_0.started_at
            == now && x.started_at == now && x.sample_rate == started->Ok_0@.sample_rate
            && x.channels == started->Ok_0@.channels && x.duration_frames
            == started->Ok_0@.duration_frames,
        before.playback is Some ==> (reply->PlaybackStart_0 matches Err(
            PlaybackStartError::AlreadyPlaying { current_session },
        ) && before.plays(current_session)),
        reply->PlaybackStart_0 is Err ==> after.playback == before.playback,
{
}

/// A command that is refused needs no work; one that starts, stops or holds something
/// and is not refused needs its own.
pub proof fn law_refused_commands_need_no_work(before: ActorState, cmd: Command)
    ensures
        refused(before, cmd) ==> need(before, cmd) == Need::Nothing,
        !refused(before, cmd) ==> match cmd {
            Command::StartRecording { .. } => need(before, cmd) == Need::StartInput,
            Command::Stop { .. } => need(before, cmd) == Need::StopWriter,
            Command::Cancel { .. } => need(before, cmd) == Need::CancelWriter,
            Command::PlaybackStart { .. } => need(before, cmd) == Need::StartOutput,
            Command::PlaybackPause { .. } => need(before, cmd) == Need::PauseStream,
            Command::PlaybackResume { .. } => need(before, cmd) == Need::ResumeStream,
            _ => need(before, cmd) == Need::Nothing,
        },
        cmd is StartRecording ==> (need(before, cmd) == Need::StartInput
            <==> before.recording@.len() < 8),
{
}

/// The same playback is the same session, begun at the same time, with its handle in
/// the same condition.
pub proof fn law_same_playback_is_the_same(a: ActorState, b: ActorState)
    requires
        same_playback(a, b),
    ensures
        a.playback is Some <==> b.playback is Some,
        a.playback matches Some(x) ==> b.plays(x.session_id) && b.playback->Some_0.started_at
            == x.started_at && b.playback->Some_0.handle@ == x.handle@,
{
}

/// A recording that runs ends when it is stopped, however its writer ended; it is a clip
/// only where the writer finished the file, and else an error.
pub proof fn law_stop_ends_every_recording(
    before: ActorState,
    after: ActorState,
    id: u128,
    writer: WriterEnd,
    now: u64,
    reply: Reply,
)
    requires
        handled(
            Command::Stop { session_id: id },
            before,
            after,
            Done::WriterEnded(writer),
            now,
            reply,
        ),
        before.recording@.dom().contains(id),
        before.recording@[id].handle@.state == RecorderState::Recording,
    ensures
        !after.recording@.dom().contains(id),
        reply is Stop,
        reply->Stop_0 is Ok <==> (writer matches WriterEnd::Done(outcome)
            && outcome.finalized is Some),
        reply->Stop_0 is Err ==> reply->Stop_0->Err_0 is Stop,
{
}

/// A cancel deletes nothing where the writer did not come to its end.
pub proof fn law_cancel_ends_every_recording(
    before: ActorState,
    after: ActorState,
    id: u128,
    writer: WriterEnd,
    now: u64,
    reply: Reply,
)
    requires
        handled(
            Command::Cancel { session_id: id },
            before,
            after,
            Done::WriterEnded(writer),
            now,
            reply,
        ),
        before.recording@.dom().contains(id),
        before.recording@[id].handle@.state == RecorderState::Recording,
    ensures
        !after.recording@.dom().contains(id),
        reply matches Reply::Cancel(Ok(x)) && (!(writer is Done) ==> x.delete is None),
{
}

/// An unknown session is answered with its own identifier; a stop of the playback under
/// another identifier is answered with that of the session that plays.
pub proof fn law_unknown_sessions_are_named(
    before: ActorState,
    after: ActorState,
    id: u128,
    done: Done,
    now: u64,
    reply: Reply,
)
    ensures
        handled(Command::Stop { session_id: id }, before, after, done, now, reply)
            && !before.recording@.dom().contains(id) ==> (reply matches Reply::Stop(
            Err(SessionError::NotFound(x)),
        ) && x == id),
        handled(Command::GetStatus { session_id: id }, before, after, done, now, reply)
            && !before.recording@.dom().contains(id) ==> (reply matches Reply::Status(
            Err(SessionError::NotFound(x)),
        ) && x == id),
        handled(Command::GetLevels { session_id: id }, before, after, done, now, reply)
            && !before.recording@.dom().contains(id) ==> (reply matches Reply::Levels(
            Err(SessionError::NotFound(x)),
        ) && x == id),
        handled(Command::PlaybackPause { session_id: id }, before, after, done, now, reply)
            && !before.plays(id) ==> (reply matches Reply::Transport(
            Err(PlaybackSessionError::NotFound(x)),
        ) && x == id),
        handled(Command::PlaybackGetStatus { session_id: id }, before, after, done, now, reply)
            && !before.plays(id) ==> (reply matches Reply::PlaybackStatus(
            Err(PlaybackSessionError::NotFound(x)),
        ) && x == id),
        handled(Command::PlaybackStop { session_id: id }, before, after, done, now, reply)
            && !before.plays(id) ==> (reply matches Reply::PlaybackStop(
            Err(PlaybackSessionError::NotFound(x)),
        ) && x == (if before.playback is Some { before.playback->Some_0.session_id } else { id })),
{
}

/// What is asked of a playback that runs is answered from its own handle: where it is,
/// and the levels of its last buffer.
pub proof fn law_playback_answers_from_its_handle(
    before: ActorState,
    after: ActorState,
    id: u128,
    done: Done,
    now: u64,
    reply: Reply,
)
    requires
        before.plays(id),
    ensures
        handled(Command::PlaybackGetStatus { session_id: id }, before, after, done, now, reply) ==> (
        reply matches Reply::PlaybackStatus(Ok(x)) && {
            let h = before.playback->Some_0.handle@;
            &&& x.position_frames == h.telemetry.position_frames
            &&& x.duration_frames == h.duration_frames
            &&& x.sample_rate == h.sample_rate
            &&& x.channels == h.channels
            &&& x.xrun_count == h.telemetry.xrun_count
            &&& x.state is Ended <==> h.state is Ended || (h.state is Playing
                && h.signals.playback_complete)
            &&& !(x.state is Ended) ==> x.state == h.state
        }),
        handled(Command::PlaybackGetLevels { session_id: id }, before, after, done, now, reply) ==> (
        reply matches Reply::PlaybackLevels(Ok(x)) && x.peaks@
            == before.playback->Some_0.handle@.telemetry.peak@ && x.mean_squares@
            == before.playback->Some_0.handle@.telemetry.mean_square@),
{
}

/// A start that failed is answered with the step at which it did.
pub proof fn law_failed_start_names_its_step(e: StartReplyError, f: StartFailure)
    requires
        tells(e, f),
    ensures
        e is Open <==> f is Open,
        e is Arm <==> f is Arm,
        e is Record <==> f is Record,
        !(e is TooManySessions),
{
}

} // verus!
