//! What each tool of the intent layer does: whether it is allowed, what it asks
//! of the engine, and how the engine's answer changes the state.
use super::state::{
    first_take, has_take, new_session_id, newest, AppState, PlaybackSessionState, PlaybackSource,
    RecordingSessionState, TakeMetadata, ValidationError,
};
use crate::ids::{hyphenated, is_random_uuid};
use crate::samples::{is_finite, unsigned_bits, INFINITY_BITS, SIGN};
use crate::strings::texts;
use crate::text::{decimal, with_decimal};
use crate::tools::{ErrorCode, ToolError};
use vstd::prelude::*;
use vstd::string::*;

verus! {

/// Which side of the devices.
#[derive(Debug, Clone, Copy, PartialEq, Eq, Structural)]
pub enum Direction {
    Input,
    Output,
}

/// Arguments of `devices_list`.
#[derive(Debug, Clone)]
pub struct DevicesListArgs {
    pub direction: Direction,
}

/// The side that is listed where none is given.
pub fn default_direction_output() -> (r: Direction)
    ensures
        r == Direction::Output,
{
    Direction::Output
}

/// Arguments of the two selecting tools; `None` clears the selection.
#[derive(Debug, Clone)]
pub struct DevicesSelectArgs {
    pub device_id: Option<String>,
}

/// Arguments of `record_start`.
#[derive(Debug, Clone)]
pub struct RecordStartArgs {
    pub device_id: Option<String>,
    /// Fold the take to mono in the end.
    pub mono: bool,
}

/// Takes are folded where nothing is said.
pub fn default_true() -> (r: bool)
    ensures
        r,
{
    true
}

/// Result of `record_start`.
#[derive(Debug, Clone)]
pub struct RecordStartResult {
    pub session_id: String,
    pub output_path: String,
}

/// Arguments of the tools on a session; `None` means the active one.
#[derive(Debug, Clone)]
pub struct SessionRefArgs {
    pub session_id: Option<String>,
}

/// Arguments of `play_start`.
#[derive(Debug, Clone)]
pub struct PlayStartArgs {
    pub source: PlaySourceArg,
    pub device_id: Option<String>,
}

/// What to play.
#[derive(Debug, Clone)]
pub enum PlaySourceArg {
    Take { take_id: String },
    File { path: String },
}

/// Result of `play_start`.
#[derive(Debug, Clone)]
pub struct PlayStartResult {
    pub session_id: String,
}

/// Arguments of `takes_delete`.
#[derive(Debug, Clone)]
pub struct TakeIdArgs {
    pub take_id: String,
}

/// Result of `takes_delete`.
#[derive(Debug, Clone, Copy, PartialEq, Eq, Structural)]
pub struct DeleteTakeResult {
    pub deleted: bool,
    pub file_removed: bool,
}

/// The names of the tools, sorted.
pub open spec fn tool_names() -> Seq<Seq<char>> {
    seq![
        "devices_list"@,
        "devices_select_input"@,
        "devices_select_output"@,
        "play_pause"@,
        "play_resume"@,
        "play_seek"@,
        "play_start"@,
        "play_stop"@,
        "record_start"@,
        "record_stop"@,
        "state_get"@,
        "takes_delete"@,
    ]
}

/// The server of the intent layer, as far as its state goes.
#[derive(Debug)]
pub struct HandlerServer {
    pub state: AppState,
}

impl HandlerServer {
    /// A server with nothing selected, recorded or playing.
    pub fn new() -> (r: HandlerServer)
        ensures
            r.state.revision == 0,
            r.state.playback is None,
            r.state.recording is None,
            r.state.selected_output_device is None,
            r.state.selected_input_device is None,
            r.state.takes@.len() == 0,
    {
        HandlerServer { state: AppState::default() }
    }

    /// The names of the tools, sorted.
    pub fn all_tool_names() -> (r: Vec<String>)
        ensures
            texts(r@) == tool_names(),
    {
        let mut v: Vec<String> = Vec::new();
        v.push("devices_list".to_owned());
        v.push("devices_select_input".to_owned());
        v.push("devices_select_output".to_owned());
        v.push("play_pause".to_owned());
        v.push("play_resume".to_owned());
        v.push("play_seek".to_owned());
        v.push("play_start".to_owned());
        v.push("play_stop".to_owned());
        v.push("record_start".to_owned());
        v.push("record_stop".to_owned());
        v.push("state_get".to_owned());
        v.push("takes_delete".to_owned());
        proof {
            assert(texts(v@) =~= tool_names());
        }
        v
    }
}

/// The engine's tool that lists this side of the devices.
pub fn devices_list(args: &DevicesListArgs) -> (r: &'static str)
    ensures
        r@ == match args.direction {
            Direction::Input => "input_list"@,
            Direction::Output => "output_list"@,
        },
{
    match args.direction {
        Direction::Input => "input_list",
        Direction::Output => "output_list",
    }
}

/// What `record_start` asks of the engine's `input_start`. The buffer size is the
/// default one.
#[derive(Debug)]
pub struct InputStart {
    pub device_id: String,
    pub sample_rate: u32,
    pub channels: u16,
    pub output_path: String,
}

/// An optional text, borrowed.
fn borrowed(s: &Option<String>) -> (r: Option<&str>)
    ensures
        match s {
            Some(x) => r matches Some(y) && y@ == x@,
            None => r is None,
        },
{
    match s {
        Some(x) => Some(x.as_str()),
        None => None,
    }
}

/// May a recording start, and with what? It is always stereo at 48 kHz.
pub fn record_start(state: &AppState, args: &RecordStartArgs, output_path: String) -> (r: Result<
    InputStart,
    ValidationError,
>)
    ensures
        if state.recording matches Some(rec) {
            r matches Err(e) && e == (ValidationError::AlreadyRecording {
                active_session: state.recording->Some_0.session_id,
            })
        } else if args.device_id is None && state.selected_input_device is None {
            r matches Err(e) && e == ValidationError::NoInputDeviceSelected
        } else {
            r matches Ok(p) && p.device_id@ == (if args.device_id is Some {
                args.device_id->Some_0
            } else {
                state.selected_input_device->Some_0
            })@ && p.sample_rate == 48_000 && p.channels == 2 && p.output_path == output_path
        },
{
    match state.validate_record_start() {
        Err(e) => Err(e),
        Ok(_) => match state.resolve_input_device(borrowed(&args.device_id)) {
            Err(e) => Err(e),
            Ok(device_id) => Ok(
                InputStart { device_id, sample_rate: 48_000, channels: 2, output_path },
            ),
        },
    }
}

/// Takes in that the engine has started `stream_id`, as session `session_id`.
pub fn record_started_as(
    state: &mut AppState,
    session_id: String,
    stream_id: String,
    output_path: String,
    mono: bool,
    now: u64,
) -> (r: RecordStartResult)
    ensures
        r == (RecordStartResult { session_id, output_path }),
        *final(state) == (AppState {
            recording: Some(
                RecordingSessionState {
                    session_id,
                    engine_stream_id: stream_id,
                    output_path,
                    mono_fold: mono,
                    started_at_unix_seconds: now,
                },
            ),
            revision: old(state).revision.wrapping_add(1),
            ..*old(state)
        }),
{
    let session = RecordingSessionState {
        session_id: session_id.clone(),
        engine_stream_id: stream_id,
        output_path: output_path.clone(),
        mono_fold: mono,
        started_at_unix_seconds: now,
    };
    state.apply_record_started(session);
    RecordStartResult { session_id, output_path }
}

/// Takes in that the engine has started `stream_id`, under a new session
/// identifier.
pub fn record_started(
    state: &mut AppState,
    stream_id: String,
    output_path: String,
    mono: bool,
    now: u64,
) -> (r: RecordStartResult)
    ensures
        exists|id: u128| is_random_uuid(id) && r.session_id@ == #[trigger] hyphenated(id),
        r.output_path == output_path,
        *final(state) == (AppState {
            recording: Some(
                RecordingSessionState {
                    session_id: r.session_id,
                    engine_stream_id: stream_id,
                    output_path,
                    mono_fold: mono,
                    started_at_unix_seconds: now,
                },
            ),
            revision: old(state).revision.wrapping_add(1),
            ..*old(state)
        }),
{
    record_started_as(state, new_session_id(), stream_id, output_path, mono, now)
}

/// What `record_stop` needs of the active session.
#[derive(Debug)]
pub struct InputStop {
    pub stream_id: String,
    pub mono_fold: bool,
}

/// May the recording stop, and which stream is it?
pub fn record_stop(state: &AppState, args: &SessionRefArgs) -> (r: Result<
    InputStop,
    ValidationError,
>)
    ensures
        match state.recording {
            None => r matches Err(e) && e == ValidationError::NotRecording,
            Some(rec) => if args.session_id matches Some(sid) && sid@ != rec.session_id@ {
                r matches Err(ValidationError::SessionNotFound { session_id: s }) && s@
                    == args.session_id->Some_0@
            } else {
                r matches Ok(p) && p == (InputStop {
                    stream_id: rec.engine_stream_id,
                    mono_fold: rec.mono_fold,
                })
            },
        },
{
    match state.validate_record_stop(borrowed(&args.session_id)) {
        Err(e) => Err(e),
        Ok(rec) => Ok(
            InputStop { stream_id: rec.engine_stream_id.clone(), mono_fold: rec.mono_fold },
        ),
    }
}

/// The bit pattern of negative infinity.
pub const NEG_INFINITY_BITS: u32 = 0xFF80_0000;

/// The bit pattern of `-180.0`, the level of silence.
pub const SILENCE_DBFS_BITS: u32 = 0xC334_0000;

/// Is the sample a NaN?
pub open spec fn is_nan(s: u32) -> bool {
    unsigned_bits(s) > INFINITY_BITS
}

/// A number that orders floats as their values are ordered; both zeros have
/// place zero.
pub open spec fn place(s: u32) -> int {
    if s < SIGN {
        s as int
    } else {
        -(s - SIGN)
    }
}

/// The larger of two floats; a NaN gives way.
pub open spec fn larger(a: u32, b: u32) -> u32 {
    if is_nan(a) {
        b
    } else if is_nan(b) {
        a
    } else if place(b) > place(a) {
        b
    } else {
        a
    }
}

/// The largest of the levels; negative infinity where there is none.
pub open spec fn loudest(levels: Seq<u32>) -> u32
    decreases levels.len(),
{
    if levels.len() == 0 {
        NEG_INFINITY_BITS
    } else {
        larger(loudest(levels.drop_last()), levels.last())
    }
}

/// The take's level: the largest of its channels' levels, and that of silence
/// where this is no number.
pub open spec fn take_level(levels: Seq<u32>) -> u32 {
    if is_finite(loudest(levels)) {
        loudest(levels)
    } else {
        SILENCE_DBFS_BITS
    }
}

/// The larger of two floats.
fn larger_of(a: u32, b: u32) -> (r: u32)
    ensures
        r == larger(a, b),
{
    let am: u32 = a % SIGN;
    let bm: u32 = b % SIGN;
    if am > INFINITY_BITS {
        b
    } else if bm > INFINITY_BITS {
        a
    } else if a < SIGN {
        if b < SIGN && bm > am {
            b
        } else {
            a
        }
    } else if b < SIGN {
        if am > 0 || bm > 0 {
            b
        } else {
            a
        }
    } else if bm < am {
        b
    } else {
        a
    }
}

/// The take's level, from the levels of its channels in dBFS.
pub fn peak_of_take(levels: &[u32]) -> (r: u32)
    ensures
        r == take_level(levels@),
{
    let mut best: u32 = NEG_INFINITY_BITS;
    let mut i: usize = 0;
    while i < levels.len()
        invariant
            i <= levels@.len(),
            best == loudest(levels@.take(i as int)),
        decreases levels@.len() - i,
    {
        best = larger_of(best, levels[i]);
        proof {
            assert(levels@.take(i + 1).drop_last() =~= levels@.take(i as int));
        }
        i += 1;
    }
    proof {
        assert(levels@.take(i as int) =~= levels@);
    }
    if best % SIGN < INFINITY_BITS {
        best
    } else {
        SILENCE_DBFS_BITS
    }
}

/// The clip that the engine's `input_stop` answers with.
#[derive(Debug)]
pub struct EngineClip {
    pub path: String,
    pub sample_rate: u32,
    pub channels: u16,
    pub started_at_unix_seconds: u64,
    /// Bit pattern of a double-precision float.
    pub duration_seconds: u64,
    /// Bit patterns of single-precision floats.
    pub peak_dbfs: Vec<u32>,
}

/// Is the clip's file to be folded? Only stereo takes are.
pub fn folds(stop: &InputStop, clip: &EngineClip) -> (r: bool)
    ensures
        r == (stop.mono_fold && clip.channels == 2),
{
    stop.mono_fold && clip.channels == 2
}

/// Takes in that the recording has stopped with `clip`, as take `take_id`.
pub fn record_stopped_as(
    state: &mut AppState,
    stop: &InputStop,
    clip: EngineClip,
    take_id: String,
) -> (r: TakeMetadata)
    ensures
        r == (TakeMetadata {
            take_id,
            path: clip.path,
            sample_rate: clip.sample_rate,
            channels: clip.channels,
            duration_seconds: clip.duration_seconds,
            peak_dbfs: take_level(clip.peak_dbfs@),
            recorded_at_unix_seconds: clip.started_at_unix_seconds,
            mono_folded: stop.mono_fold && clip.channels == 2,
        }),
        *final(state) == (AppState {
            recording: None,
            revision: old(state).revision.wrapping_add(1),
            takes: final(state).takes,
            ..*old(state)
        }),
        final(state).takes@ == newest(old(state).takes@.push(r)),
{
    let mono_folded: bool = folds(stop, &clip);
    let take = TakeMetadata {
        take_id,
        path: clip.path,
        sample_rate: clip.sample_rate,
        channels: clip.channels,
        duration_seconds: clip.duration_seconds,
        peak_dbfs: peak_of_take(clip.peak_dbfs.as_slice()),
        recorded_at_unix_seconds: clip.started_at_unix_seconds,
        mono_folded,
    };
    let kept: TakeMetadata = take.copied();
    state.apply_record_stopped(Some(kept));
    take
}

/// Takes in that the recording has stopped with `clip`, under a new take
/// identifier.
pub fn record_stopped(state: &mut AppState, stop: &InputStop, clip: EngineClip) -> (r: TakeMetadata)
    ensures
        exists|id: u128| is_random_uuid(id) && r.take_id@ == #[trigger] hyphenated(id),
        r == (TakeMetadata {
            take_id: r.take_id,
            path: clip.path,
            sample_rate: clip.sample_rate,
            channels: clip.channels,
            duration_seconds: clip.duration_seconds,
            peak_dbfs: take_level(clip.peak_dbfs@),
            recorded_at_unix_seconds: clip.started_at_unix_seconds,
            mono_folded: stop.mono_fold && clip.channels == 2,
        }),
        *final(state) == (AppState {
            recording: None,
            revision: old(state).revision.wrapping_add(1),
            takes: final(state).takes,
            ..*old(state)
        }),
        final(state).takes@ == newest(old(state).takes@.push(r)),
{
    record_stopped_as(state, stop, clip, new_session_id())
}

/// What `play_start` asks of the engine's `output_start`. The buffer size is the
/// default one.
#[derive(Debug)]
pub struct OutputStart {
    pub device_id: String,
    pub path: String,
    pub source: PlaybackSource,
}

/// The file that a playback source stands for in this state.
pub open spec fn resolves(state: AppState, source: PlaySourceArg, p: OutputStart) -> bool {
    match source {
        PlaySourceArg::File { path } => p.path == path && p.source == (PlaybackSource::File {
            path,
        }),
        PlaySourceArg::Take { take_id } => p.source == (PlaybackSource::Take { take_id })
            && exists|i: int|
            first_take(state.takes@, take_id@, i) && (#[trigger] state.takes@[i]).path == p.path,
    }
}

/// Does the source name a take that is not in the history?
pub open spec fn unknown_take(state: AppState, source: PlaySourceArg) -> bool {
    source matches PlaySourceArg::Take { take_id } && !has_take(state.takes@, take_id@)
}

/// May a playback start, and with what?
pub fn play_start(state: &AppState, args: &PlayStartArgs) -> (r: Result<
    OutputStart,
    ValidationError,
>)
    ensures
        if state.playback is Some {
            r matches Err(e) && e == (ValidationError::AlreadyPlaying {
                active_session: state.playback->Some_0.session_id,
            })
        } else if args.device_id is None && state.selected_output_device is None {
            r matches Err(e) && e == ValidationError::NoOutputDeviceSelected
        } else if unknown_take(*state, args.source) {
            r matches Err(ValidationError::UnknownTake { take_id }) && take_id@
                == args.source->Take_take_id@
        } else {
            r matches Ok(p) && p.device_id@ == (if args.device_id is Some {
                args.device_id->Some_0
            } else {
                state.selected_output_device->Some_0
            })@ && resolves(*state, args.source, p)
        },
{
    match state.validate_play_start() {
        Err(e) => {
            return Err(e);
        },
        Ok(_) => {},
    }
    let device_id: String = match state.resolve_output_device(borrowed(&args.device_id)) {
        Err(e) => {
            return Err(e);
        },
        Ok(id) => id,
    };
    match &args.source {
        PlaySourceArg::Take { take_id } => match state.find_take(take_id.as_str()) {
            Err(e) => Err(e),
            Ok(take) => {
                proof {
                    let i = choose|i: int|
                        first_take(state.takes@, take_id@, i) && #[trigger] state.takes@[i]
                            == *take;
                    assert(has_take(state.takes@, take_id@)) by {
                        assert(state.takes@[i].take_id@ == take_id@);
                    }
                }
                Ok(
                    OutputStart {
                        device_id,
                        path: take.path.clone(),
                        source: PlaybackSource::Take { take_id: take_id.clone() },
                    },
                )
            },
        },
        PlaySourceArg::File { path } => Ok(
            OutputStart {
                device_id,
                path: path.clone(),
                source: PlaybackSource::File { path: path.clone() },
            },
        ),
    }
}

/// Takes in that the engine plays as `stream_id`, as session `session_id`.
pub fn play_started_as(
    state: &mut AppState,
    session_id: String,
    stream_id: String,
    source: PlaybackSource,
    now: u64,
) -> (r: PlayStartResult)
    ensures
        r == (PlayStartResult { session_id }),
        *final(state) == (AppState {
            playback: Some(
                PlaybackSessionState {
                    session_id,
                    engine_stream_id: stream_id,
                    source,
                    started_at_unix_seconds: now,
                },
            ),
            revision: old(state).revision.wrapping_add(1),
            ..*old(state)
        }),
{
    let session = PlaybackSessionState {
        session_id: session_id.clone(),
        engine_stream_id: stream_id,
        source,
        started_at_unix_seconds: now,
    };
    state.apply_play_started(session);
    PlayStartResult { session_id }
}

/// Takes in that the engine plays as `stream_id`, under a new session identifier.
pub fn play_started(
    state: &mut AppState,
    stream_id: String,
    source: PlaybackSource,
    now: u64,
) -> (r: PlayStartResult)
    ensures
        exists|id: u128| is_random_uuid(id) && r.session_id@ == #[trigger] hyphenated(id),
        *final(state) == (AppState {
            playback: Some(
                PlaybackSessionState {
                    session_id: r.session_id,
                    engine_stream_id: stream_id,
                    source,
                    started_at_unix_seconds: now,
                },
            ),
            revision: old(state).revision.wrapping_add(1),
            ..*old(state)
        }),
{
    play_started_as(state, new_session_id(), stream_id, source, now)
}

/// The engine's name for the active playback, where the given session, if one is
/// given, is it.
pub fn active_play_stream(state: &AppState, args: &SessionRefArgs) -> (r: Result<
    String,
    ValidationError,
>)
    ensures
        match state.playback {
            None => r matches Err(e) && e == ValidationError::NotPlayable,
            Some(pb) => if args.session_id matches Some(sid) && sid@ != pb.session_id@ {
                r matches Err(ValidationError::SessionNotFound { session_id: s }) && s@
                    == args.session_id->Some_0@
            } else {
                r matches Ok(id) && id == pb.engine_stream_id
            },
        },
{
    match state.validate_play_active(borrowed(&args.session_id)) {
        Err(e) => Err(e),
        Ok(pb) => Ok(pb.engine_stream_id.clone()),
    }
}

/// Stops the active playback: the session ends at once, whatever the engine will
/// answer. Returns the engine's name for it.
pub fn play_stop(state: &mut AppState, args: &SessionRefArgs) -> (r: Result<
    String,
    ValidationError,
>)
    ensures
        match old(state).playback {
            None => r matches Err(e) && e == ValidationError::NotPlayable && *final(state) == *old(
                state,
            ),
            Some(pb) => if args.session_id matches Some(sid) && sid@ != pb.session_id@ {
                &&& r matches Err(ValidationError::SessionNotFound { session_id: s }) && s@
                    == args.session_id->Some_0@
                &&& *final(state) == *old(state)
            } else {
                &&& r matches Ok(id) && id == pb.engine_stream_id
                &&& *final(state) == (AppState {
                    playback: None,
                    revision: old(state).revision.wrapping_add(1),
                    ..*old(state)
                })
            },
        },
{
    let stream: Result<String, ValidationError> = active_play_stream(state, args);
    if stream.is_ok() {
        state.apply_play_stopped();
    }
    stream
}

/// Removes a take from the history. Returns the path of its file, to be deleted.
pub fn takes_delete(state: &mut AppState, args: &TakeIdArgs) -> (r: Option<String>)
    ensures
        !has_take(old(state).takes@, args.take_id@) ==> r is None && *final(state) == *old(state),
        has_take(old(state).takes@, args.take_id@) ==> exists|i: int|
            first_take(old(state).takes@, args.take_id@, i) && r == Some(
                (#[trigger] old(state).takes@[i]).path,
            ) && final(state).takes@ == old(state).takes@.remove(i),
        has_take(old(state).takes@, args.take_id@) ==> *final(state) == (AppState {
            revision: old(state).revision.wrapping_add(1),
            takes: final(state).takes,
            ..*old(state)
        }),
{
    match state.apply_delete_take(args.take_id.as_str()) {
        None => None,
        Some(take) => Some(take.path),
    }
}

/// The answer of `takes_delete`: the take's path where there was one, and whether
/// its file could be deleted.
pub fn takes_deleted(removed: &Option<String>, unlinked: bool) -> (r: DeleteTakeResult)
    ensures
        r == (DeleteTakeResult {
            deleted: removed is Some,
            file_removed: removed is Some && unlinked,
        }),
{
    match removed {
        None => DeleteTakeResult { deleted: false, file_removed: false },
        Some(_) => DeleteTakeResult { deleted: true, file_removed: unlinked },
    }
}

/// The tool error of a command that is not allowed.
pub fn validation_to_error(err: &ValidationError) -> (r: ToolError)
    ensures
        r.says(ErrorCode::InvalidRequest, err.text()),
{
    ToolError::invalid_request(err.message())
}

/// The tool error of an engine call that did not come through.
pub fn engine_call_error(err: &str) -> (r: ToolError)
    ensures
        r.says(ErrorCode::InternalError, "engine_call_failed: "@ + err@),
{
    ToolError::internal_error("engine_call_failed: ".to_owned().concat(err))
}

/// What an engine call comes to, given its error flag and its structured content,
/// if any, as decoded.
pub fn parse_engine_result<T>(is_error: Option<bool>, structured: Option<Result<T, String>>) -> (r:
    Result<T, ToolError>)
    ensures
        if is_error == Some(true) {
            r matches Err(e) && e.says(ErrorCode::InvalidRequest, "engine returned tool error"@)
        } else {
            match structured {
                None => r matches Err(e) && e.says(
                    ErrorCode::InternalError,
                    "engine response missing structured_content"@,
                ),
                Some(Err(m)) => r matches Err(e) && e.says(
                    ErrorCode::InternalError,
                    "engine response decode: "@ + m@,
                ),
                Some(Ok(x)) => r matches Ok(y) && y == x,
            }
        },
{
    if let Some(true) = is_error {
        return Err(ToolError::invalid_request("engine returned tool error".to_owned()));
    }
    match structured {
        None => Err(
            ToolError::internal_error("engine response missing structured_content".to_owned()),
        ),
        Some(Err(m)) => Err(
            ToolError::internal_error("engine response decode: ".to_owned().concat(m.as_str())),
        ),
        Some(Ok(x)) => Ok(x),
    }
}

/// The file name of a take that begins `millis` milliseconds after the Unix
/// epoch.
pub fn take_file_name(millis: u64) -> (r: String)
    ensures
        r@ == "octave-take-"@ + decimal(millis as nat) + ".wav"@,
{
    let mut s: String = with_decimal("octave-take-", millis);
    s.append(".wav");
    s
}

/// The loudest level is a number, one of the levels or negative infinity, and no
/// level that is a number lies above it.
proof fn lemma_loudest(levels: Seq<u32>)
    ensures
        !is_nan(loudest(levels)),
        loudest(levels) == NEG_INFINITY_BITS || levels.contains(loudest(levels)),
        forall|k: int|
            0 <= k < levels.len() && !is_nan(#[trigger] levels[k]) ==> place(levels[k]) <= place(
                loudest(levels),
            ),
    decreases levels.len(),
{
    if levels.len() > 0 {
        let rest = levels.drop_last();
        lemma_loudest(rest);
        assert(levels[levels.len() - 1] == levels.last());
        if rest.contains(loudest(rest)) {
            let k = choose|k: int| 0 <= k < rest.len() && rest[k] == loudest(rest);
            assert(levels[k] == loudest(rest));
        }
        assert forall|k: int| 0 <= k < levels.len() && !is_nan(#[trigger] levels[k]) implies place(
            levels[k],
        ) <= place(loudest(levels)) by {
            if k < rest.len() {
                assert(rest[k] == levels[k]);
            }
        }
    }
}

/// The level of a take whose channel levels are all finite is one of them, and no
/// channel level is a larger number. Levels are float bits: below `0x8000_0000` they
/// are not negative and grow with their bits, from there on they are not positive and
/// shrink as their bits grow; the bits `0` and `0x8000_0000` are both zero.
pub proof fn law_take_level_is_the_largest(levels: Seq<u32>, i: int)
    requires
        0 <= i < levels.len(),
        forall|k: int|
            0 <= k < levels.len() ==> #[trigger] levels[k] < 0x7F80_0000 || 0x8000_0000 <= levels[k]
                < 0xFF80_0000,
    ensures
        levels.contains(take_level(levels)),
        ({
            let m = take_level(levels);
            let s = levels[i];
            &&& m < 0x8000_0000 && s < 0x8000_0000 ==> s <= m
            &&& m >= 0x8000_0000 && s >= 0x8000_0000 ==> s >= m
            &&& m >= 0x8000_0000 && s < 0x8000_0000 ==> m == 0x8000_0000 && s == 0
        }),
{
    law_take_level_passes_over_what_is_no_number(levels, i, i);
}

/// Channel levels that are no numbers, and those of negative infinity, do not count:
/// while no level is positive infinity and one is finite, the take's level is a finite
/// one of them, and no level that is a number is larger.
pub proof fn law_take_level_passes_over_what_is_no_number(levels: Seq<u32>, i: int, j: int)
    requires
        0 <= i < levels.len(),
        0 <= j < levels.len(),
        levels[i] <= 0x7F80_0000 || 0x8000_0000 <= levels[i] <= 0xFF80_0000,
        levels[j] < 0x7F80_0000 || 0x8000_0000 <= levels[j] < 0xFF80_0000,
        forall|k: int| 0 <= k < levels.len() ==> #[trigger] levels[k] != 0x7F80_0000,
    ensures
        levels.contains(take_level(levels)),
        take_level(levels) < 0x7F80_0000 || 0x8000_0000 <= take_level(levels) < 0xFF80_0000,
        ({
            let m = take_level(levels);
            let s = levels[i];
            &&& m < 0x8000_0000 && s < 0x8000_0000 ==> s <= m
            &&& m >= 0x8000_0000 && s >= 0x8000_0000 ==> s >= m
            &&& m >= 0x8000_0000 && s < 0x8000_0000 ==> m == 0x8000_0000 && s == 0
        }),
{
    lemma_loudest(levels);
    assert(place(levels[j]) <= place(loudest(levels)));
    assert(place(levels[i]) <= place(loudest(levels)));
    assert(loudest(levels) != NEG_INFINITY_BITS);
    let k = choose|k: int| 0 <= k < levels.len() && levels[k] == loudest(levels);
    assert(levels[k] != 0x7F80_0000);
}

/// A take with no finite channel level, or with one of positive infinity, has the
/// level of silence, the float -180.
pub proof fn law_take_level_of_silence(levels: Seq<u32>)
    requires
        (exists|k: int| 0 <= k < levels.len() && #[trigger] levels[k] == 0x7F80_0000) || forall|
            k: int,
        |
            0 <= k < levels.len() ==> 0x7F80_0000 <= #[trigger] levels[k] < 0x8000_0000 || levels[k]
                >= 0xFF80_0000,
    ensures
        take_level(levels) == 0xC334_0000,
{
    lemma_loudest(levels);
    if exists|k: int| 0 <= k < levels.len() && #[trigger] levels[k] == 0x7F80_0000 {
        let k = choose|k: int| 0 <= k < levels.len() && #[trigger] levels[k] == 0x7F80_0000;
        assert(place(levels[k]) <= place(loudest(levels)));
    } else if levels.contains(loudest(levels)) {
        let k = choose|k: int| 0 <= k < levels.len() && levels[k] == loudest(levels);
        assert(levels[k] == loudest(levels));
    }
}

/// Playing a take plays its own file: that of the first take of its identifier. Playing
/// a file plays that file.
pub proof fn law_take_plays_its_own_file(
    state: AppState,
    take_id: String,
    path: String,
    p: OutputStart,
    i: int,
)
    requires
        0 <= i < state.takes@.len(),
        state.takes@[i].take_id@ == take_id@,
        forall|k: int| 0 <= k < i ==> (#[trigger] state.takes@[k]).take_id@ != take_id@,
    ensures
        resolves(state, PlaySourceArg::Take { take_id }, p) ==> p.path == state.takes@[i].path,
        resolves(state, PlaySourceArg::File { path }, p) ==> p.path == path,
        !unknown_take(state, PlaySourceArg::Take { take_id }),
        !unknown_take(state, PlaySourceArg::File { path }),
{
    if resolves(state, PlaySourceArg::Take { take_id }, p) {
        let j = choose|j: int|
            first_take(state.takes@, take_id@, j) && (#[trigger] state.takes@[j]).path == p.path;
        assert(state.takes@[j].take_id@ == take_id@);
        assert(i == j);
    }
}

/// A take that is not in the history is unknown.
pub proof fn law_missing_takes_are_unknown(state: AppState, take_id: String)
    requires
        forall|k: int| 0 <= k < state.takes@.len() ==> (#[trigger] state.takes@[k]).take_id@
            != take_id@,
    ensures
        unknown_take(state, PlaySourceArg::Take { take_id }),
{
}

/// The tools of the intent layer are these, and no others.
pub proof fn law_tools_are_these(name: Seq<char>)
    ensures
        tool_names().len() == 12,
        tool_names().contains(name) <==> {
            ||| name == "devices_list"@
            ||| name == "devices_select_input"@
            ||| name == "devices_select_output"@
            ||| name == "play_pause"@
            ||| name == "play_resume"@
            ||| name == "play_seek"@
            ||| name == "play_start"@
            ||| name == "play_stop"@
            ||| name == "record_start"@
            ||| name == "record_stop"@
            ||| name == "state_get"@
            ||| name == "takes_delete"@
        },
{
    assert(tool_names()[0] == "devices_list"@);
    assert(tool_names()[1] == "devices_select_input"@);
    assert(tool_names()[2] == "devices_select_output"@);
    assert(tool_names()[3] == "play_pause"@);
    assert(tool_names()[4] == "play_resume"@);
    assert(tool_names()[5] == "play_seek"@);
    assert(tool_names()[6] == "play_start"@);
    assert(tool_names()[7] == "play_stop"@);
    assert(tool_names()[8] == "record_start"@);
    assert(tool_names()[9] == "record_stop"@);
    assert(tool_names()[10] == "state_get"@);
    assert(tool_names()[11] == "takes_delete"@);
}

} // verus!
