//! The shell's audio actor: at most one playback and one recording.
//!
//! Streams, writer threads and devices are worked on by whoever runs the actor's
//! loop. [`needed_work`] says what a command needs done before it is handled;
//! [`handle_command`] takes what was done and answers.
use crate::ids::{is_random_uuid, new_uuid};
use crate::mcp::audio_actor::{elapsed, SendOutcome, StartFailure};
use crate::player::handle::{
    HandleView, PlaybackHandle, StartError, StopError as HandleStopError, TransportError,
};
use crate::player::types::{PlaybackSpec, PlaybackState, PlaybackStatus};
use crate::recorder::error::StopError;
use crate::recorder::handle::{RecordingHandle, WriterEnd};
use crate::recorder::state::RecorderState;
use crate::recorder::writer::WriterOutcome;
use crate::recorder::{RecordedClip, RecordingSpec};
use vstd::prelude::*;
use vstd::string::*;

verus! {

/// How many commands may wait.
pub const COMMAND_QUEUE: usize = 16;

/// Why a command did not reach the actor.
#[derive(Debug, Clone, Copy, PartialEq, Eq, Structural)]
pub enum ActorError {
    Gone,
    QueueFull,
}

impl ActorError {
    /// The text of the error.
    pub open spec fn text(self) -> Seq<char> {
        match self {
            ActorError::Gone => "audio thread is gone"@,
            ActorError::QueueFull => "audio command queue is full"@,
        }
    }

    /// The text of the error.
    pub fn message(self) -> (r: String)
        ensures
            r@ == self.text(),
    {
        match self {
            ActorError::Gone => "audio thread is gone".to_owned(),
            ActorError::QueueFull => "audio command queue is full".to_owned(),
        }
    }
}

/// What came of sending a command.
pub fn sent(outcome: SendOutcome) -> (r: Result<(), ActorError>)
    ensures
        match outcome {
            SendOutcome::Sent => r is Ok,
            SendOutcome::Full => r == Result::<(), ActorError>::Err(ActorError::QueueFull),
            SendOutcome::Disconnected => r == Result::<(), ActorError>::Err(ActorError::Gone),
        },
{
    match outcome {
        SendOutcome::Sent => Ok(()),
        SendOutcome::Full => Err(ActorError::QueueFull),
        SendOutcome::Disconnected => Err(ActorError::Gone),
    }
}

/// A command.
#[derive(Debug)]
pub enum Command {
    Start { spec: PlaybackSpec },
    Pause,
    Resume,
    Stop,
    Status,
    /// Opens, arms and records in one step; a failure leaves nothing behind.
    StartRecording { spec: RecordingSpec, output_path: String, fold_to_mono: bool },
    StopRecording,
    RecordingStatus,
}

/// A started playback. Its duration in seconds is that in frames over the sample
/// rate.
#[derive(Debug, Clone, Copy, PartialEq, Eq)]
pub struct PlaybackStartReply {
    pub duration_frames: Option<u64>,
    pub sample_rate: u32,
    pub channels: u16,
}

/// Why a playback did not start.
#[derive(Debug)]
pub enum PlaybackStartError {
    Start(String),
    AlreadyPlaying,
}

impl PlaybackStartError {
    /// The text of the error.
    pub open spec fn text(&self) -> Seq<char> {
        match self {
            PlaybackStartError::Start(m) => "StartError::"@ + m@,
            PlaybackStartError::AlreadyPlaying =>
                "a playback session is already active — stop it first"@,
        }
    }

    /// The text of the error.
    pub fn message(&self) -> (r: String)
        ensures
            r@ == self.text(),
    {
        match self {
            PlaybackStartError::Start(m) => "StartError::".to_owned().concat(m.as_str()),
            PlaybackStartError::AlreadyPlaying => {
                "a playback session is already active — stop it first".to_owned()
            },
        }
    }
}

/// Why a playback did not stop.
#[derive(Debug)]
pub enum PlaybackStopError {
    NotPlaying,
    Stop(String),
}

impl PlaybackStopError {
    /// The text of the error.
    pub open spec fn text(&self) -> Seq<char> {
        match self {
            PlaybackStopError::NotPlaying => "nothing is currently playing"@,
            PlaybackStopError::Stop(m) => "StopError::"@ + m@,
        }
    }

    /// The text of the error.
    pub fn message(&self) -> (r: String)
        ensures
            r@ == self.text(),
    {
        match self {
            PlaybackStopError::NotPlaying => "nothing is currently playing".to_owned(),
            PlaybackStopError::Stop(m) => "StopError::".to_owned().concat(m.as_str()),
        }
    }
}

/// Why a playback was not paused or resumed.
#[derive(Debug)]
pub enum PlaybackTransportError {
    NotPlaying,
    Transport(String),
}

impl PlaybackTransportError {
    /// The text of the error.
    pub open spec fn text(&self) -> Seq<char> {
        match self {
            PlaybackTransportError::NotPlaying => "nothing is currently playing"@,
            PlaybackTransportError::Transport(m) => "TransportError::"@ + m@,
        }
    }

    /// The text of the error.
    pub fn message(&self) -> (r: String)
        ensures
            r@ == self.text(),
    {
        match self {
            PlaybackTransportError::NotPlaying => "nothing is currently playing".to_owned(),
            PlaybackTransportError::Transport(m) => "TransportError::".to_owned().concat(
                m.as_str(),
            ),
        }
    }
}

/// A started recording.
#[derive(Debug)]
pub struct RecordingStartReply {
    pub output_path: String,
    pub sample_rate: u32,
    pub channels: u16,
}

/// Why a recording did not start.
#[derive(Debug)]
pub enum RecordingStartError {
    AlreadyRecording,
    Open(String),
    Arm(String),
    Record(String),
}

impl RecordingStartError {
    /// The text of the error.
    pub open spec fn text(&self) -> Seq<char> {
        match self {
            RecordingStartError::AlreadyRecording =>
                "a recording session is already active — stop it first"@,
            RecordingStartError::Open(m) => "OpenError::"@ + m@,
            RecordingStartError::Arm(m) => "ArmError::"@ + m@,
            RecordingStartError::Record(m) => "RecordError::"@ + m@,
        }
    }

    /// The text of the error.
    pub fn message(&self) -> (r: String)
        ensures
            r@ == self.text(),
    {
        match self {
            RecordingStartError::AlreadyRecording => {
                "a recording session is already active — stop it first".to_owned()
            },
            RecordingStartError::Open(m) => "OpenError::".to_owned().concat(m.as_str()),
            RecordingStartError::Arm(m) => "ArmError::".to_owned().concat(m.as_str()),
            RecordingStartError::Record(m) => "RecordError::".to_owned().concat(m.as_str()),
        }
    }
}

/// Why a recording did not stop.
#[derive(Debug)]
pub enum RecordingStopError {
    NotRecording,
    Stop(String),
}

impl RecordingStopError {
    /// The text of the error.
    pub open spec fn text(&self) -> Seq<char> {
        match self {
            RecordingStopError::NotRecording => "nothing is currently recording"@,
            RecordingStopError::Stop(m) => "StopError::"@ + m@,
        }
    }

    /// The text of the error.
    pub fn message(&self) -> (r: String)
        ensures
            r@ == self.text(),
    {
        match self {
            RecordingStopError::NotRecording => "nothing is currently recording".to_owned(),
            RecordingStopError::Stop(m) => "StopError::".to_owned().concat(m.as_str()),
        }
    }
}

/// How the recording stands.
#[derive(Debug, Clone, Copy, PartialEq, Eq, Structural)]
pub struct RecordingStatusSnapshot {
    pub state: RecorderState,
    pub elapsed_nanos: u64,
    pub xrun_count: u32,
}

/// The recording session.
#[derive(Debug)]
pub struct RecordingSession {
    pub handle: RecordingHandle,
    pub output_path: String,
    /// Nanoseconds on the clock that `now` is read from.
    pub started_at: u64,
    pub fold_to_mono: bool,
}

/// A stopped recording, and whether its file is to be folded to mono.
#[derive(Debug)]
pub struct RecordingStopReply {
    pub clip: RecordedClip,
    pub fold_to_mono: bool,
}

/// At most one playback and one recording.
#[derive(Debug)]
pub struct ActorState {
    pub active: Option<PlaybackHandle>,
    pub recording: Option<RecordingSession>,
}

/// An answer.
#[derive(Debug)]
pub enum Reply {
    Start(Result<PlaybackStartReply, PlaybackStartError>),
    Transport(Result<PlaybackStatus, PlaybackTransportError>),
    Stop(Result<PlaybackStatus, PlaybackStopError>),
    Status(Option<PlaybackStatus>),
    StartRecording(Result<RecordingStartReply, RecordingStartError>),
    StopRecording(Result<RecordingStopReply, RecordingStopError>),
    RecordingStatus(Option<RecordingStatusSnapshot>),
}

/// What a command needs done before it is handled.
#[derive(Debug, Clone, Copy, PartialEq, Eq, Structural)]
pub enum Need {
    Nothing,
    /// Open the device, load the source and start the stream.
    StartOutput,
    PauseStream,
    ResumeStream,
    /// Open the device, arm and start the writer; undo it all on a failure.
    StartInput,
    /// Tell the writer to stop and join it.
    StopWriter,
}

/// What was done.
#[derive(Debug)]
pub enum Done {
    Nothing,
    OutputStarted(Result<PlaybackHandle, StartError>),
    Stream(Result<(), String>),
    InputStarted(Result<RecordingHandle, StartFailure>),
    WriterEnded(WriterEnd),
}

impl ActorState {
    /// The handles are well formed.
    pub open spec fn wf(&self) -> bool {
        &&& self.active matches Some(h) ==> h.wf()
        &&& self.recording matches Some(s) ==> s.handle.wf()
    }

    /// Nothing plays, nothing records.
    pub fn new() -> (r: ActorState)
        ensures
            r.wf(),
            r.active is None,
            r.recording is None,
    {
        ActorState { active: None, recording: None }
    }
}

/// The work that a command needs in this state.
pub open spec fn need(state: ActorState, cmd: Command) -> Need {
    match cmd {
        Command::Start { .. } => if state.active is Some {
            Need::Nothing
        } else {
            Need::StartOutput
        },
        Command::Pause => if state.active matches Some(h) && h@.state == PlaybackState::Playing {
            Need::PauseStream
        } else {
            Need::Nothing
        },
        Command::Resume => if state.active matches Some(h) && h@.state == PlaybackState::Paused {
            Need::ResumeStream
        } else {
            Need::Nothing
        },
        Command::StartRecording { .. } => if state.recording is Some {
            Need::Nothing
        } else {
            Need::StartInput
        },
        Command::StopRecording => if state.recording matches Some(s) && s.handle@.state
            == RecorderState::Recording {
            Need::StopWriter
        } else {
            Need::Nothing
        },
        _ => Need::Nothing,
    }
}

/// Does what was done answer the need?
pub open spec fn meets(need: Need, done: Done) -> bool {
    match need {
        Need::Nothing => true,
        Need::StartOutput => done matches Done::OutputStarted(r) && (r matches Ok(h) ==> h.wf()),
        Need::PauseStream | Need::ResumeStream => done is Stream,
        Need::StartInput => done matches Done::InputStarted(r) && (r matches Ok(h) ==> h.wf()),
        Need::StopWriter => done is WriterEnded,
    }
}

/// The work that a command needs in this state.
pub fn needed_work(state: &ActorState, cmd: &Command) -> (r: Need)
    ensures
        r == need(*state, *cmd),
{
    match cmd {
        Command::Start { .. } => if state.active.is_some() {
            Need::Nothing
        } else {
            Need::StartOutput
        },
        Command::Pause => match &state.active {
            Some(h) => if h.check_pause().is_ok() {
                Need::PauseStream
            } else {
                Need::Nothing
            },
            None => Need::Nothing,
        },
        Command::Resume => match &state.active {
            Some(h) => if h.check_resume().is_ok() {
                Need::ResumeStream
            } else {
                Need::Nothing
            },
            None => Need::Nothing,
        },
        Command::StartRecording { .. } => if state.recording.is_some() {
            Need::Nothing
        } else {
            Need::StartInput
        },
        Command::StopRecording => match &state.recording {
            Some(s) => if s.handle.check_stop().is_ok() {
                Need::StopWriter
            } else {
                Need::Nothing
            },
            None => Need::Nothing,
        },
        _ => Need::Nothing,
    }
}

/// The playback went on with its handle in condition `h`.
pub open spec fn plays_on(after: ActorState, h: HandleView) -> bool {
    after.active matches Some(x) && x@ == h
}

/// What a pause does.
pub open spec fn paused(
    before: ActorState,
    after: ActorState,
    stream: Result<(), String>,
    r: Result<PlaybackStatus, PlaybackTransportError>,
) -> bool {
    match before.active {
        None => {
            &&& r matches Err(e) && e == PlaybackTransportError::NotPlaying
            &&& after.active is None
        },
        Some(handle) => {
            let h = handle@;
            if h.state != PlaybackState::Playing {
                &&& r matches Err(PlaybackTransportError::Transport(m)) && m@ == (
                TransportError::NotPlaying { current: h.state }).text()
                &&& plays_on(after, h)
            } else {
                match stream {
                    Err(e) => {
                        &&& r matches Err(PlaybackTransportError::Transport(m)) && m@ == (
                        TransportError::BackendFailed(e)).text()
                        &&& plays_on(after, h)
                    },
                    Ok(_) => {
                        let now = HandleView { state: PlaybackState::Paused, ..h };
                        &&& plays_on(after, now)
                        &&& r matches Ok(x) && x == now.snapshot()
                    },
                }
            }
        },
    }
}

/// What a resume does.
pub open spec fn resumed(
    before: ActorState,
    after: ActorState,
    stream: Result<(), String>,
    r: Result<PlaybackStatus, PlaybackTransportError>,
) -> bool {
    match before.active {
        None => {
            &&& r matches Err(e) && e == PlaybackTransportError::NotPlaying
            &&& after.active is None
        },
        Some(handle) => {
            let h = handle@;
            if h.state != PlaybackState::Paused {
                &&& r matches Err(PlaybackTransportError::Transport(m)) && m@ == (
                TransportError::NotPaused { current: h.state }).text()
                &&& plays_on(after, h)
            } else {
                match stream {
                    Err(e) => {
                        &&& r matches Err(PlaybackTransportError::Transport(m)) && m@ == (
                        TransportError::BackendFailed(e)).text()
                        &&& plays_on(after, h)
                    },
                    Ok(_) => {
                        let now = HandleView { state: PlaybackState::Playing, ..h };
                        &&& plays_on(after, now)
                        &&& r matches Ok(x) && x == now.snapshot()
                    },
                }
            }
        },
    }
}

/// What a stop does: the playback ends, whatever its state was.
pub open spec fn stopped(
    before: ActorState,
    after: ActorState,
    r: Result<PlaybackStatus, PlaybackStopError>,
) -> bool {
    &&& after.active is None
    &&& match before.active {
        None => r matches Err(e) && e == PlaybackStopError::NotPlaying,
        Some(handle) => if handle@.active() {
            r matches Ok(x) && x == handle@.stopped().snapshot()
        } else {
            r matches Err(PlaybackStopError::Stop(m)) && m@ == (HandleStopError::NotActive {
                current: handle@.observed(),
            }).text()
        },
    }
}

/// Does the answer say where starting a recording failed?
pub open spec fn tells(e: RecordingStartError, f: StartFailure) -> bool {
    match f {
        StartFailure::Open(o) => e matches RecordingStartError::Open(m) && m@ == o.text(),
        StartFailure::Arm(a) => e matches RecordingStartError::Arm(m) && m@ == a.text(),
        StartFailure::Record(x) => e matches RecordingStartError::Record(m) && m@ == x.text(),
    }
}

/// What a stop of the recording does: the session ends, with a clip or with the
/// failure.
pub open spec fn recording_stopped(
    before: ActorState,
    after: ActorState,
    writer: WriterEnd,
    r: Result<RecordingStopReply, RecordingStopError>,
) -> bool {
    &&& after.recording is None
    &&& match before.recording {
        None => r matches Err(e) && e == RecordingStopError::NotRecording,
        Some(s) => if s.handle@.state != RecorderState::Recording {
            r matches Err(RecordingStopError::Stop(m)) && m@ == (StopError::NotRecording {
                current: s.handle@.state,
            }).text()
        } else {
            match writer {
                WriterEnd::Panicked => r matches Err(RecordingStopError::Stop(m)) && m@
                    == "finalize failed: "@ + "writer thread panicked"@,
                WriterEnd::Failed(text) => r matches Err(RecordingStopError::Stop(m)) && m@
                    == "finalize failed: "@ + text@,
                WriterEnd::Done(outcome) => match outcome.finalized {
                    None => r matches Err(RecordingStopError::Stop(m)) && m@
                        == "finalize failed: "@ + "writer returned no clip"@,
                    Some(fin) => r matches Ok(x) && is_random_uuid(x.clip.uuid) && x.clip.path
                        == outcome.path && x.clip.frame_count == fin.frame_count && x.clip.sample_rate
                        == s.handle@.sample_rate && x.clip.channels == s.handle@.channels
                        && x.clip.xrun_count == s.handle@.telemetry.xrun_count
                        && x.clip.dropped_samples == s.handle@.telemetry.dropped_samples
                        && x.clip.peaks@ == s.handle@.telemetry.running_peak@ && x.fold_to_mono
                        == (s.fold_to_mono && s.handle@.channels == 2),
                },
            }
        },
    }
}

/// How a writer ended that was not asked.
pub open spec fn writer_end(done: Done) -> WriterEnd {
    match done {
        Done::WriterEnded(w) => w,
        _ => WriterEnd::Panicked,
    }
}

/// What a stream answered that was not asked.
pub open spec fn stream_answer(done: Done) -> Result<(), String> {
    match done {
        Done::Stream(r) => r,
        _ => Ok(()),
    }
}

/// What is answered to a command, and what it does to the sessions.
pub open spec fn handled(
    cmd: Command,
    before: ActorState,
    after: ActorState,
    done: Done,
    now: u64,
    reply: Reply,
) -> bool {
    match cmd {
        Command::Start { spec } => {
            &&& after.recording == before.recording
            &&& reply matches Reply::Start(r)
            &&& if before.active is Some {
                &&& r matches Err(e) && e == PlaybackStartError::AlreadyPlaying
                &&& after.active == before.active
            } else {
                match done->OutputStarted_0 {
                    Err(e) => {
                        &&& r matches Err(PlaybackStartError::Start(m)) && m@ == e.text()
                        &&& after.active is None
                    },
                    Ok(handle) => {
                        &&& after.active == Some(handle)
                        &&& r matches Ok(x) && x == (PlaybackStartReply {
                            duration_frames: handle@.duration_frames,
                            sample_rate: handle@.sample_rate,
                            channels: handle@.channels,
                        })
                    },
                }
            }
        },
        Command::Pause => {
            &&& after.recording == before.recording
            &&& reply matches Reply::Transport(r) && paused(
                before,
                after,
                stream_answer(done),
                r,
            )
        },
        Command::Resume => {
            &&& after.recording == before.recording
            &&& reply matches Reply::Transport(r) && resumed(
                before,
                after,
                stream_answer(done),
                r,
            )
        },
        Command::Stop => {
            &&& after.recording == before.recording
            &&& reply matches Reply::Stop(r) && stopped(before, after, r)
        },
        Command::Status => {
            &&& after == before
            &&& reply matches Reply::Status(r) && r == match before.active {
                None => None,
                Some(h) => Some(h@.snapshot()),
            }
        },
        Command::StartRecording { spec, output_path, fold_to_mono } => {
            &&& after.active == before.active
            &&& reply matches Reply::StartRecording(r)
            &&& if before.recording is Some {
                &&& r matches Err(e) && e == RecordingStartError::AlreadyRecording
                &&& after.recording == before.recording
            } else {
                match done->InputStarted_0 {
                    Err(f) => {
                        &&& r matches Err(e) && tells(e, f)
                        &&& after.recording is None
                    },
                    Ok(handle) => {
                        &&& after.recording == Some(
                            RecordingSession {
                                handle,
                                output_path,
                                started_at: now,
                                fold_to_mono,
                            },
                        )
                        &&& r matches Ok(x) && x == (RecordingStartReply {
                            output_path,
                            sample_rate: spec.sample_rate,
                            channels: spec.channels,
                        })
                    },
                }
            }
        },
        Command::StopRecording => {
            &&& after.active == before.active
            &&& reply matches Reply::StopRecording(r) && recording_stopped(
                before,
                after,
                writer_end(done),
                r,
            )
        },
        Command::RecordingStatus => {
            &&& after == before
            &&& reply matches Reply::RecordingStatus(r) && r == match before.recording {
                None => None,
                Some(s) => Some(
                    RecordingStatusSnapshot {
                        state: s.handle@.state,
                        elapsed_nanos: elapsed(s.started_at, now),
                        xrun_count: s.handle@.telemetry.xrun_count,
                    },
                ),
            }
        },
    }
}

/// Handles a command, given the work that was done for it.
pub fn handle_command(cmd: Command, state: &mut ActorState, done: Done, now: u64) -> (reply: Reply)
    requires
        old(state).wf(),
        meets(need(*old(state), cmd), done),
    ensures
        final(state).wf(),
        handled(cmd, *old(state), *final(state), done, now, reply),
{
    match cmd {
        Command::Start { .. } => {
            if state.active.is_some() {
                return Reply::Start(Err(PlaybackStartError::AlreadyPlaying));
            }
            match done {
                Done::OutputStarted(Ok(handle)) => {
                    let status: PlaybackStatus = handle.status();
                    state.active = Some(handle);
                    Reply::Start(
                        Ok(
                            PlaybackStartReply {
                                duration_frames: status.duration_frames,
                                sample_rate: status.sample_rate,
                                channels: status.channels,
                            },
                        ),
                    )
                },
                Done::OutputStarted(Err(e)) => {
                    Reply::Start(Err(PlaybackStartError::Start(e.message())))
                },
                _ => Reply::Start(Err(PlaybackStartError::AlreadyPlaying)),
            }
        },
        Command::Pause => Reply::Transport(pause(state, done)),
        Command::Resume => Reply::Transport(resume(state, done)),
        Command::Stop => Reply::Stop(stop(state)),
        Command::Status => Reply::Status(
            match &state.active {
                None => None,
                Some(h) => Some(h.status()),
            },
        ),
        Command::StartRecording { spec, output_path, fold_to_mono } => {
            if state.recording.is_some() {
                return Reply::StartRecording(Err(RecordingStartError::AlreadyRecording));
            }
            match done {
                Done::InputStarted(started) => Reply::StartRecording(
                    start_recording(state, spec, output_path, fold_to_mono, started, now),
                ),
                _ => Reply::StartRecording(Err(RecordingStartError::AlreadyRecording)),
            }
        },
        Command::StopRecording => Reply::StopRecording(stop_recording(state, done)),
        Command::RecordingStatus => Reply::RecordingStatus(
            match &state.recording {
                None => None,
                Some(s) => Some(
                    RecordingStatusSnapshot {
                        state: s.handle.state(),
                        elapsed_nanos: if now > s.started_at {
                            now - s.started_at
                        } else {
                            0
                        },
                        xrun_count: s.handle.xrun_count(),
                    },
                ),
            },
        ),
    }
}

fn taken_stream(done: Done) -> (r: Result<(), String>)
    ensures
        r == stream_answer(done),
{
    match done {
        Done::Stream(r) => r,
        _ => Ok(()),
    }
}

fn pause(state: &mut ActorState, done: Done) -> (r: Result<PlaybackStatus, PlaybackTransportError>)
    requires
        old(state).wf(),
    ensures
        final(state).wf(),
        final(state).recording == old(state).recording,
        paused(*old(state), *final(state), stream_answer(done), r),
{
    match state.active.take() {
        None => Err(PlaybackTransportError::NotPlaying),
        Some(active) => {
            let mut handle: PlaybackHandle = active;
            let result: Result<(), TransportError> = handle.pause(taken_stream(done));
            let status: PlaybackStatus = handle.status();
            state.active = Some(handle);
            match result {
                Ok(_) => Ok(status),
                Err(e) => Err(PlaybackTransportError::Transport(e.message())),
            }
        },
    }
}

fn resume(state: &mut ActorState, done: Done) -> (r: Result<PlaybackStatus, PlaybackTransportError>)
    requires
        old(state).wf(),
    ensures
        final(state).wf(),
        final(state).recording == old(state).recording,
        resumed(*old(state), *final(state), stream_answer(done), r),
{
    match state.active.take() {
        None => Err(PlaybackTransportError::NotPlaying),
        Some(active) => {
            let mut handle: PlaybackHandle = active;
            let result: Result<(), TransportError> = handle.resume(taken_stream(done));
            let status: PlaybackStatus = handle.status();
            state.active = Some(handle);
            match result {
                Ok(_) => Ok(status),
                Err(e) => Err(PlaybackTransportError::Transport(e.message())),
            }
        },
    }
}

fn stop(state: &mut ActorState) -> (r: Result<PlaybackStatus, PlaybackStopError>)
    requires
        old(state).wf(),
    ensures
        final(state).wf(),
        final(state).recording == old(state).recording,
        stopped(*old(state), *final(state), r),
{
    match state.active.take() {
        None => Err(PlaybackStopError::NotPlaying),
        Some(active) => {
            let mut handle: PlaybackHandle = active;
            match handle.stop() {
                Ok(status) => Ok(status),
                Err(e) => Err(PlaybackStopError::Stop(e.message())),
            }
        },
    }
}

/// Takes in a recording that was started, or was not.
fn start_recording(
    state: &mut ActorState,
    spec: RecordingSpec,
    output_path: String,
    fold_to_mono: bool,
    started: Result<RecordingHandle, StartFailure>,
    now: u64,
) -> (r: Result<RecordingStartReply, RecordingStartError>)
    requires
        old(state).wf(),
        started matches Ok(h) ==> h.wf(),
    ensures
        final(state).wf(),
        final(state).active == old(state).active,
        match started {
            Err(f) => {
                &&& r matches Err(e) && tells(e, f)
                &&& final(state).recording == old(state).recording
            },
            Ok(handle) => {
                &&& final(state).recording == Some(
                    RecordingSession { handle, output_path, started_at: now, fold_to_mono },
                )
                &&& r matches Ok(x) && x == (RecordingStartReply {
                    output_path,
                    sample_rate: spec.sample_rate,
                    channels: spec.channels,
                })
            },
        },
{
    match started {
        Err(StartFailure::Open(e)) => Err(RecordingStartError::Open(e.message())),
        Err(StartFailure::Arm(e)) => Err(RecordingStartError::Arm(e.message())),
        Err(StartFailure::Record(e)) => Err(RecordingStartError::Record(e.message())),
        Ok(handle) => {
            let path: String = output_path.clone();
            state.recording = Some(
                RecordingSession { handle, output_path, started_at: now, fold_to_mono },
            );
            Ok(
                RecordingStartReply {
                    output_path: path,
                    sample_rate: spec.sample_rate,
                    channels: spec.channels,
                },
            )
        },
    }
}

fn stop_recording(state: &mut ActorState, done: Done) -> (r: Result<
    RecordingStopReply,
    RecordingStopError,
>)
    requires
        old(state).wf(),
    ensures
        final(state).wf(),
        final(state).active == old(state).active,
        recording_stopped(*old(state), *final(state), writer_end(done), r),
{
    let writer: WriterEnd = match done {
        Done::WriterEnded(w) => w,
        _ => WriterEnd::Panicked,
    };
    match state.recording.take() {
        None => Err(RecordingStopError::NotRecording),
        Some(session) => {
            let mut s: RecordingSession = session;
            let fold: bool = s.fold_to_mono && s.handle.channels() == 2;
            match s.handle.stop_as(writer, new_uuid()) {
                Ok(clip) => Ok(RecordingStopReply { clip, fold_to_mono: fold }),
                Err(e) => Err(RecordingStopError::Stop(e.message())),
            }
        },
    }
}

/// A recording that is started and then stopped ends with the file that its writer
/// left; it is to be folded to mono exactly where that was asked for and it has two
/// channels.
pub proof fn law_started_recording_is_stopped(
    before: ActorState,
    running: ActorState,
    after: ActorState,
    spec: RecordingSpec,
    output_path: String,
    fold_to_mono: bool,
    handle: RecordingHandle,
    outcome: WriterOutcome,
    t0: u64,
    t1: u64,
    first: Reply,
    second: Reply,
)
    requires
        before.recording is None,
        handled(
            Command::StartRecording { spec, output_path, fold_to_mono },
            before,
            running,
            Done::InputStarted(Ok(handle)),
            t0,
            first,
        ),
        handle@.state == RecorderState::Recording,
        outcome.finalized is Some,
        handled(
            Command::StopRecording,
            running,
            after,
            Done::WriterEnded(WriterEnd::Done(outcome)),
            t1,
            second,
        ),
    ensures
        first matches Reply::StartRecording(Ok(x)) && x.output_path == output_path && x.sample_rate
            == spec.sample_rate && x.channels == spec.channels,
        second matches Reply::StopRecording(Ok(x)) && x.clip.path == outcome.path
            && x.clip.frame_count == outcome.finalized->Some_0.frame_count && x.clip.sample_rate
            == handle@.sample_rate && x.clip.channels == handle@.channels && x.clip.peaks@
            == handle@.telemetry.running_peak@ && x.clip.dropped_samples
            == handle@.telemetry.dropped_samples && x.clip.xrun_count
            == handle@.telemetry.xrun_count && (x.fold_to_mono <==> fold_to_mono && handle@.channels
            == 2),
        after.recording is None,
        after.active == before.active,
{
}

/// How the recording stands is answered with the time since it began, and zero where
/// the clock went back; without a recording nothing is answered.
pub proof fn law_recording_status_tells_the_time(
    before: ActorState,
    after: ActorState,
    done: Done,
    now: u64,
    reply: Reply,
)
    requires
        handled(Command::RecordingStatus, before, after, done, now, reply),
    ensures
        after == before,
        reply is RecordingStatus,
        reply->RecordingStatus_0 is Some <==> before.recording is Some,
        before.recording matches Some(s) ==> {
            let x = reply->RecordingStatus_0->Some_0;
            &&& x.state == s.handle@.state
            &&& now >= s.started_at ==> s.started_at + x.elapsed_nanos == now
            &&& now < s.started_at ==> x.elapsed_nanos == 0
            &&& x.xrun_count == s.handle@.telemetry.xrun_count
        },
{
}

/// A playback that is paused and resumed plays as it did before.
pub proof fn law_resume_undoes_pause(
    before: ActorState,
    held: ActorState,
    after: ActorState,
    t0: u64,
    t1: u64,
    first: Reply,
    second: Reply,
)
    requires
        before.active is Some,
        before.active->Some_0@.state == PlaybackState::Playing,
        handled(Command::Pause, before, held, Done::Stream(Ok(())), t0, first),
        handled(Command::Resume, held, after, Done::Stream(Ok(())), t1, second),
    ensures
        held.active is Some,
        held.active->Some_0@.state == PlaybackState::Paused,
        after.active is Some,
        after.active->Some_0@ == before.active->Some_0@,
        first matches Reply::Transport(Ok(x)) && x.state == PlaybackState::Paused
            && x.position_frames == before.active->Some_0@.telemetry.position_frames,
        second matches Reply::Transport(Ok(x)) && x.position_frames
            == before.active->Some_0@.telemetry.position_frames,
        after.recording == before.recording,
{
}

/// One playback runs at a time: it starts where none runs, and is the one that is then
/// active.
pub proof fn law_one_playback_at_a_time(
    before: ActorState,
    after: ActorState,
    spec: PlaybackSpec,
    started: Result<PlaybackHandle, StartError>,
    now: u64,
    reply: Reply,
)
    requires
        handled(
            Command::Start { spec },
            before,
            after,
            Done::OutputStarted(started),
            now,
            reply,
        ),
    ensures
        reply is Start,
        reply->Start_0 is Ok <==> before.active is None && started is Ok,
        reply->Start_0 matches Ok(x) ==> after.active == Some(started->Ok_0) && x.sample_rate
            == started->Ok_0@.sample_rate && x.channels == started->Ok_0@.channels
            && x.duration_frames == started->Ok_0@.duration_frames,
        reply->Start_0 is Err ==> after.active == before.active,
        after.recording == before.recording,
{
}

/// After a stop nothing plays; a playback that was not closed is answered with where it
/// was, and without one the answer is an error.
pub proof fn law_nothing_plays_after_a_stop(
    before: ActorState,
    after: ActorState,
    done: Done,
    now: u64,
    reply: Reply,
)
    requires
        handled(Command::Stop, before, after, done, now, reply),
    ensures
        after.active is None,
        after.recording == before.recording,
        reply is Stop,
        before.active is None ==> reply->Stop_0 is Err,
        before.active is Some && before.active->Some_0@.state != PlaybackState::Closed ==> (
        reply->Stop_0 matches Ok(x) && x.state == PlaybackState::Stopped && x.position_frames
            == before.active->Some_0@.telemetry.position_frames),
{
}

/// A recording, a playback, a pause, a resume and a stop of the recording need work
/// exactly where the state allows them; nothing else needs any.
pub proof fn law_work_is_needed_where_allowed(state: ActorState, cmd: Command)
    ensures
        cmd is StartRecording ==> (need(state, cmd) == Need::StartInput <==> state.recording is None),
        cmd is Start ==> (need(state, cmd) == Need::StartOutput <==> state.active is None),
        cmd is Pause ==> (need(state, cmd) == Need::PauseStream <==> state.active is Some
            && state.active->Some_0@.state == PlaybackState::Playing),
        cmd is Resume ==> (need(state, cmd) == Need::ResumeStream <==> state.active is Some
            && state.active->Some_0@.state == PlaybackState::Paused),
        cmd is StopRecording ==> (need(state, cmd) == Need::StopWriter <==> state.recording is Some
            && state.recording->Some_0.handle@.state == RecorderState::Recording),
        cmd is Stop || cmd is Status || cmd is RecordingStatus ==> need(state, cmd)
            == Need::Nothing,
{
}

/// The recording ends when it is stopped, however its writer ended; it is a clip only
/// where it ran and the writer finished the file, and else an error.
pub proof fn law_stop_ends_every_recording(
    before: ActorState,
    after: ActorState,
    writer: WriterEnd,
    now: u64,
    reply: Reply,
)
    requires
        handled(
            Command::StopRecording,
            before,
            after,
            Done::WriterEnded(writer),
            now,
            reply,
        ),
    ensures
        after.recording is None,
        after.active == before.active,
        reply is StopRecording,
        reply->StopRecording_0 is Ok <==> before.recording is Some
            && before.recording->Some_0.handle@.state == RecorderState::Recording && (
        writer matches WriterEnd::Done(outcome) && outcome.finalized is Some),
{
}

/// One recording runs at a time: it starts where none runs, with the path and the fold
/// that were asked for.
pub proof fn law_one_recording_at_a_time(
    before: ActorState,
    after: ActorState,
    spec: RecordingSpec,
    output_path: String,
    fold_to_mono: bool,
    started: Result<RecordingHandle, StartFailure>,
    now: u64,
    reply: Reply,
)
    requires
        handled(
            Command::StartRecording { spec, output_path, fold_to_mono },
            before,
            after,
            Done::InputStarted(started),
            now,
            reply,
        ),
    ensures
        reply is StartRecording,
        reply->StartRecording_0 is Ok <==> before.recording is None && started is Ok,
        reply->StartRecording_0 is Ok ==> (after.recording matches Some(s) && s.handle
            == started->Ok_0 && s.started_at == now && s.output_path == output_path
            && s.fold_to_mono == fold_to_mono),
        reply->StartRecording_0 is Err ==> after.recording == before.recording,
        after.active == before.active,
{
}

/// What is asked of the playback is answered from its own handle.
pub proof fn law_status_answers_from_the_handle(
    before: ActorState,
    after: ActorState,
    done: Done,
    now: u64,
    reply: Reply,
)
    requires
        handled(Command::Status, before, after, done, now, reply),
    ensures
        after == before,
        reply is Status,
        reply->Status_0 is Some <==> before.active is Some,
        before.active is Some ==> {
            let x = reply->Status_0->Some_0;
            let h = before.active->Some_0@;
            &&& x.position_frames == h.telemetry.position_frames
            &&& x.duration_frames == h.duration_frames
            &&& x.sample_rate == h.sample_rate
            &&& x.channels == h.channels
            &&& x.xrun_count == h.telemetry.xrun_count
            &&& x.state is Ended <==> h.state is Ended || (h.state is Playing
                && h.signals.playback_complete)
            &&& !(x.state is Ended) ==> x.state == h.state
        },
{
}

/// A start that failed is answered with the step at which it did.
pub proof fn law_failed_start_names_its_step(e: RecordingStartError, f: StartFailure)
    requires
        tells(e, f),
    ensures
        e is Open <==> f is Open,
        e is Arm <==> f is Arm,
        e is Record <==> f is Record,
        !(e is AlreadyRecording),
{
}

} // verus!
