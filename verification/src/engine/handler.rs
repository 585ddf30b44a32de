//! The engine's tools. A running session is called a stream here.
use crate::audio_devices::types::{BufferSize, DeviceError, DeviceFault, DeviceId};
use crate::ids::{hyphenated, parse_uuid, uuid_parsed, uuid_text};
use crate::mcp::audio_actor::{
    Command, PlaybackSessionError, PlaybackStartError, PlaybackStartReply, SessionError,
    StartReply, StartReplyError,
};
use crate::mcp::handler::{session_error, session_fault, start_error, start_fault};
use crate::mcp::types::BufferSizeJson;
use crate::player::types::{PlaybackSourceSpec, PlaybackSpec};
use crate::strings::texts;
use crate::text::{debug_quoted, decimal, push_decimal, quoted, with_decimal};
use crate::tools::{enabled_of, enabled_tools, has_name, ErrorCode, ToolError};
use std::sync::Arc;
use vstd::prelude::*;
use vstd::string::*;

verus! {

/// How many samples a buffer source may have: 100 MB of them.
pub const MAX_BUFFER_SAMPLES: usize = 26_214_400;

/// The names of the tools, sorted.
pub open spec fn tool_names() -> Seq<Seq<char>> {
    seq![
        "input_cancel"@,
        "input_describe"@,
        "input_levels"@,
        "input_list"@,
        "input_start"@,
        "input_status"@,
        "input_stop"@,
        "output_describe"@,
        "output_levels"@,
        "output_list"@,
        "output_pause"@,
        "output_resume"@,
        "output_seek"@,
        "output_start"@,
        "output_status"@,
        "output_stop"@,
    ]
}

/// The tool server, as far as it knows which tools are on.
#[derive(Debug)]
pub struct OctaveServer {
    enabled: Vec<String>,
}

impl View for OctaveServer {
    type V = Seq<Seq<char>>;

    closed spec fn view(&self) -> Seq<Seq<char>> {
        texts(self.enabled@)
    }
}

impl OctaveServer {
    /// All tools are on.
    pub fn new() -> (r: OctaveServer)
        ensures
            r@ == tool_names(),
    {
        OctaveServer { enabled: OctaveServer::all_tool_names() }
    }

    /// Only the allowed tools are on. Returns their names too; names that are not
    /// known are ignored.
    pub fn with_allowed_tools(allowed: &Vec<String>) -> (r: (OctaveServer, Vec<String>))
        ensures
            r.0@ == enabled_of(tool_names(), texts(allowed@)),
            texts(r.1@) == r.0@,
    {
        let known: Vec<String> = OctaveServer::all_tool_names();
        let enabled: Vec<String> = enabled_tools(&known, allowed);
        let again: Vec<String> = enabled_tools(&known, allowed);
        (OctaveServer { enabled }, again)
    }

    /// Is the tool on?
    pub fn accepts(&self, name: &str) -> (r: bool)
        ensures
            r == self@.contains(name@),
    {
        has_name(&self.enabled, name)
    }

    /// The names of all tools, on or off, sorted.
    pub fn all_tool_names() -> (r: Vec<String>)
        ensures
            texts(r@) == tool_names(),
    {
        let mut v: Vec<String> = Vec::new();
        v.push("input_cancel".to_owned());
        v.push("input_describe".to_owned());
        v.push("input_levels".to_owned());
        v.push("input_list".to_owned());
        v.push("input_start".to_owned());
        v.push("input_status".to_owned());
        v.push("input_stop".to_owned());
        v.push("output_describe".to_owned());
        v.push("output_levels".to_owned());
        v.push("output_list".to_owned());
        v.push("output_pause".to_owned());
        v.push("output_resume".to_owned());
        v.push("output_seek".to_owned());
        v.push("output_start".to_owned());
        v.push("output_status".to_owned());
        v.push("output_stop".to_owned());
        proof {
            assert(texts(v@) =~= tool_names());
        }
        v
    }
}

/// The stream that a text names.
pub fn parse_stream_id(s: &str) -> (r: Result<u128, ToolError>)
    ensures
        match uuid_parsed(s@) {
            Some(id) => r matches Ok(x) && x == id,
            None => r matches Err(e) && e.says(
                ErrorCode::InvalidParams,
                "invalid stream_id: "@ + s@ + " is not a UUID"@,
            ),
        },
{
    stream_id_or_error(s, parse_uuid(s))
}

/// The stream that a text names, given what parsing it came to.
pub fn stream_id_or_error(s: &str, parsed: Option<u128>) -> (r: Result<u128, ToolError>)
    ensures
        match parsed {
            Some(id) => r matches Ok(x) && x == id,
            None => r matches Err(e) && e.says(
                ErrorCode::InvalidParams,
                "invalid stream_id: "@ + s@ + " is not a UUID"@,
            ),
        },
{
    match parsed {
        Some(id) => Ok(id),
        None => {
            let mut m: String = "invalid stream_id: ".to_owned();
            m.append(s);
            m.append(" is not a UUID");
            Err(ToolError::invalid_params(m))
        },
    }
}

/// How a device error prints for debugging.
pub open spec fn device_error_debug(e: DeviceFault) -> Seq<char> {
    match e {
        DeviceFault::DeviceNotFound { id } => "DeviceNotFound { id: DeviceId("@ + debug_quoted(id)
            + ") }"@,
        DeviceFault::BackendError(m) => "BackendError("@ + debug_quoted(m) + ")"@,
    }
}

/// An error with its type's name in front: `prefix`, two colons and the error as
/// it prints for debugging.
pub fn format_typed_error(prefix: &str, err: &DeviceError) -> (r: String)
    ensures
        r@ == prefix@ + "::"@ + device_error_debug(err@),
{
    let mut s: String = prefix.to_owned();
    s.append("::");
    match err {
        DeviceError::DeviceNotFound { id } => {
            let q: String = quoted(id.0.as_str());
            s.append("DeviceNotFound { id: DeviceId(");
            s.append(q.as_str());
            s.append(") }");
        },
        DeviceError::BackendError(m) => {
            let q: String = quoted(m.as_str());
            s.append("BackendError(");
            s.append(q.as_str());
            s.append(")");
        },
    }
    proof {
        assert(s@ =~= prefix@ + "::"@ + device_error_debug(err@));
    }
    s
}

/// The tool error of `input_describe` and `output_describe`.
pub fn describe_error(prefix: &str, err: &DeviceError) -> (r: ToolError)
    ensures
        r.says(ErrorCode::InvalidParams, prefix@ + "::"@ + device_error_debug(err@)),
{
    ToolError::invalid_params(format_typed_error(prefix, err))
}

/// A started stream.
#[derive(Debug)]
pub struct StreamStartResult {
    pub stream_id: String,
    pub started_at_unix_seconds: u64,
}

/// The answer of `input_start`.
pub fn input_started(reply: Result<StartReply, StartReplyError>) -> (r: Result<
    StreamStartResult,
    ToolError,
>)
    ensures
        match reply {
            Ok(x) => r matches Ok(y) && y.stream_id@ == hyphenated(x.session_id) && uuid_parsed(
                y.stream_id@,
            ) == Some(x.session_id) && y.started_at_unix_seconds == x.started_at / 1_000_000_000,
            Err(e) => r matches Err(t) && start_fault(
                e,
                "TooManySessions: 8 concurrent recording streams max in v0.1"@,
                t,
            ),
        },
{
    match reply {
        Ok(x) => Ok(
            StreamStartResult {
                stream_id: uuid_text(x.session_id),
                started_at_unix_seconds: x.started_at / 1_000_000_000,
            },
        ),
        Err(e) => Err(start_error(e, "TooManySessions: 8 concurrent recording streams max in v0.1")),
    }
}

/// The answer of a tool on an input stream.
pub fn input_reply<T>(reply: Result<T, SessionError>) -> (r: Result<T, ToolError>)
    ensures
        match reply {
            Ok(x) => r matches Ok(y) && y == x,
            Err(e) => r matches Err(t) && session_fault(e, "stream_not_found: "@, t),
        },
{
    match reply {
        Ok(x) => Ok(x),
        Err(e) => Err(session_error(&e, "stream_not_found: ")),
    }
}

/// Where a playback's samples come from. The samples are bit patterns.
#[derive(Debug)]
pub enum PlaybackSourceJson {
    File { path: String },
    Buffer { samples: Vec<u32>, sample_rate: u32, channels: u16 },
}

/// Arguments of `output_start`.
#[derive(Debug)]
pub struct PlaybackStartArgs {
    pub device_id: String,
    pub source: PlaybackSourceJson,
    pub buffer_size: BufferSizeJson,
}

/// `std`'s conversion of a vector into a shared slice: it keeps the items and
/// their order.
#[verifier::external_body]
fn shared(v: Vec<u32>) -> (r: Arc<[u32]>)
    ensures
        r@ == v@,
{
    Arc::from(v)
}

/// Is a buffer source beyond the limit?
pub open spec fn too_large(source: PlaybackSourceJson) -> bool {
    source matches PlaybackSourceJson::Buffer { samples, .. } && samples@.len()
        > MAX_BUFFER_SAMPLES
}

/// The source that is played.
pub open spec fn same_source(source: PlaybackSourceJson, spec: PlaybackSourceSpec) -> bool {
    match source {
        PlaybackSourceJson::File { path } => spec == (PlaybackSourceSpec::File { path }),
        PlaybackSourceJson::Buffer { samples, sample_rate, channels } =>
            spec matches PlaybackSourceSpec::Buffer {
            samples: s,
            sample_rate: r,
            channels: c,
        } && s@ == samples@ && r == sample_rate && c == channels,
    }
}

/// The command of `output_start`; a buffer source that is too large is refused.
pub fn output_start(args: PlaybackStartArgs) -> (r: Result<Command, ToolError>)
    ensures
        if too_large(args.source) {
            r matches Err(e) && e.says(
                ErrorCode::InvalidParams,
                "buffer source too large ("@ + decimal(args.source->Buffer_samples@.len())
                    + " samples > "@ + decimal(MAX_BUFFER_SAMPLES as nat)
                    + " cap); use a file source"@,
            )
        } else {
            r matches Ok(Command::PlaybackStart { spec }) && spec.device_id == DeviceId(
                args.device_id,
            ) && same_source(args.source, spec.source) && spec.buffer_size
                == match args.buffer_size {
                BufferSizeJson::Default => BufferSize::Default,
                BufferSizeJson::Fixed { samples } => BufferSize::Fixed(samples),
            }
        },
{
    let source: PlaybackSourceSpec = match args.source {
        PlaybackSourceJson::File { path } => PlaybackSourceSpec::File { path },
        PlaybackSourceJson::Buffer { samples, sample_rate, channels } => {
            if samples.len() > MAX_BUFFER_SAMPLES {
                let mut m: String = with_decimal("buffer source too large (", samples.len() as u64);
                m.append(" samples > ");
                push_decimal(&mut m, MAX_BUFFER_SAMPLES as u64);
                m.append(" cap); use a file source");
                return Err(ToolError::invalid_params(m));
            }
            PlaybackSourceSpec::Buffer { samples: shared(samples), sample_rate, channels }
        },
    };
    Ok(
        Command::PlaybackStart {
            spec: PlaybackSpec {
                device_id: DeviceId(args.device_id),
                source,
                buffer_size: BufferSize::from(args.buffer_size),
            },
        },
    )
}

/// A started playback. Its duration in seconds is that in frames over the sample
/// rate.
#[derive(Debug)]
pub struct PlaybackStartResult {
    pub stream_id: String,
    pub started_at_unix_seconds: u64,
    pub duration_frames: Option<u64>,
    pub sample_rate: u32,
    pub channels: u16,
}

/// The answer of `output_start`.
pub fn output_started(reply: Result<PlaybackStartReply, PlaybackStartError>) -> (r: Result<
    PlaybackStartResult,
    ToolError,
>)
    ensures
        match reply {
            Ok(x) => r matches Ok(y) && y.stream_id@ == hyphenated(x.session_id) && uuid_parsed(
                y.stream_id@,
            ) == Some(x.session_id) && y.started_at_unix_seconds == x.started_at / 1_000_000_000
                && y.duration_frames == x.duration_frames && y.sample_rate == x.sample_rate
                && y.channels == x.channels,
            Err(PlaybackStartError::AlreadyPlaying { current_session }) => r matches Err(t)
                && t.says(
                ErrorCode::InvalidRequest,
                "AlreadyPlaying: current_stream="@ + hyphenated(current_session),
            ),
            Err(PlaybackStartError::Start(s)) => r matches Err(t) && t.says(
                ErrorCode::InvalidParams,
                s@,
            ),
        },
{
    match reply {
        Ok(x) => Ok(
            PlaybackStartResult {
                stream_id: uuid_text(x.session_id),
                started_at_unix_seconds: x.started_at / 1_000_000_000,
                duration_frames: x.duration_frames,
                sample_rate: x.sample_rate,
                channels: x.channels,
            },
        ),
        Err(PlaybackStartError::AlreadyPlaying { current_session }) => {
            let t: String = uuid_text(current_session);
            Err(
                ToolError::invalid_request(
                    "AlreadyPlaying: current_stream=".to_owned().concat(t.as_str()),
                ),
            )
        },
        Err(PlaybackStartError::Start(s)) => Err(ToolError::invalid_params(s)),
    }
}

/// The tool error of a command on an output stream that failed: an unknown stream
/// is the caller's error.
pub open spec fn playback_fault(e: PlaybackSessionError, t: ToolError) -> bool {
    match e {
        PlaybackSessionError::NotFound(id) => t.says(
            ErrorCode::InvalidParams,
            "stream_not_found: "@ + hyphenated(id),
        ),
        _ => t.says(ErrorCode::InternalError, e.text()),
    }
}

/// The answer of a tool on an output stream.
pub fn output_reply<T>(reply: Result<T, PlaybackSessionError>) -> (r: Result<T, ToolError>)
    ensures
        match reply {
            Ok(x) => r matches Ok(y) && y == x,
            Err(e) => r matches Err(t) && playback_fault(e, t),
        },
{
    match reply {
        Ok(x) => Ok(x),
        Err(PlaybackSessionError::NotFound(id)) => {
            let t: String = uuid_text(id);
            Err(
                ToolError::invalid_params("stream_not_found: ".to_owned().concat(t.as_str())),
            )
        },
        Err(e) => Err(ToolError::internal_error(e.message())),
    }
}

/// Arguments of `output_seek`. The seconds are the bit pattern of a
/// double-precision float.
#[derive(Debug)]
pub struct PlaybackSeekArgs {
    pub stream_id: String,
    pub position_seconds: Option<u64>,
    pub position_frames: Option<u64>,
}

/// What `output_seek` does next.
#[derive(Debug)]
pub enum SeekPlan {
    /// Seek to a frame.
    Frames { stream_id: u128, target_frames: u64 },
    /// Ask for the stream's sample rate, to convert the seconds.
    Seconds { stream_id: u128, position_seconds: u64 },
}

/// What `output_seek` does next: frames win over seconds; one of them must be
/// there.
pub fn output_seek(args: &PlaybackSeekArgs) -> (r: Result<SeekPlan, ToolError>)
    ensures
        match uuid_parsed(args.stream_id@) {
            None => r matches Err(e) && e.says(
                ErrorCode::InvalidParams,
                "invalid stream_id: "@ + args.stream_id@ + " is not a UUID"@,
            ),
            Some(id) => seek_planned(*args, id, r),
        },
{
    match parse_stream_id(args.stream_id.as_str()) {
        Err(e) => Err(e),
        Ok(stream_id) => plan_seek(args, stream_id),
    }
}

/// What is planned for a stream.
pub open spec fn seek_planned(
    args: PlaybackSeekArgs,
    id: u128,
    r: Result<SeekPlan, ToolError>,
) -> bool {
    match (args.position_frames, args.position_seconds) {
        (Some(f), _) => r matches Ok(p) && p == (SeekPlan::Frames {
            stream_id: id,
            target_frames: f,
        }),
        (None, Some(s)) => r matches Ok(p) && p == (SeekPlan::Seconds {
            stream_id: id,
            position_seconds: s,
        }),
        (None, None) => r matches Err(e) && e.says(
            ErrorCode::InvalidParams,
            "output_seek: provide position_seconds or position_frames"@,
        ),
    }
}

/// What `output_seek` does next on a stream.
pub fn plan_seek(args: &PlaybackSeekArgs, stream_id: u128) -> (r: Result<SeekPlan, ToolError>)
    ensures
        seek_planned(*args, stream_id, r),
{
    if let Some(target_frames) = args.position_frames {
        return Ok(SeekPlan::Frames { stream_id, target_frames });
    }
    if let Some(position_seconds) = args.position_seconds {
        return Ok(SeekPlan::Seconds { stream_id, position_seconds });
    }
    Err(
        ToolError::invalid_params(
            "output_seek: provide position_seconds or position_frames".to_owned(),
        ),
    )
}

/// A buffer of up to 26 214 400 samples is played, and a larger one is refused; a file is
/// never too large.
pub proof fn law_buffers_up_to_the_limit(source: PlaybackSourceJson)
    ensures
        source is File ==> !too_large(source),
        source matches PlaybackSourceJson::Buffer { samples, .. } ==> (too_large(source)
            <==> samples@.len() > 26_214_400),
{
}

/// Frames come before seconds where both are given; where neither is, nothing is
/// planned.
pub proof fn law_seek_goes_by_frames_first(
    args: PlaybackSeekArgs,
    id: u128,
    r: Result<SeekPlan, ToolError>,
)
    requires
        seek_planned(args, id, r),
    ensures
        r is Err <==> args.position_frames is None && args.position_seconds is None,
        args.position_frames is Some ==> r->Ok_0 is Frames && r->Ok_0->target_frames
            == args.position_frames->Some_0 && r->Ok_0->Frames_stream_id == id,
        args.position_frames is None && args.position_seconds is Some ==> r->Ok_0 is Seconds
            && r->Ok_0->position_seconds == args.position_seconds->Some_0
            && r->Ok_0->Seconds_stream_id == id,
{
}

/// An unknown stream is the caller's fault, and all else is internal.
pub proof fn law_playback_faults_are_told_apart(e: PlaybackSessionError, t: ToolError)
    requires
        playback_fault(e, t),
    ensures
        e is NotFound <==> t.code == ErrorCode::InvalidParams,
        !(e is NotFound) <==> t.code == ErrorCode::InternalError,
{
}

/// What is played is what was named: the file of that path, or the samples with their
/// own rate and channels.
pub proof fn law_named_source_is_played(source: PlaybackSourceJson, spec: PlaybackSourceSpec)
    requires
        same_source(source, spec),
    ensures
        source matches PlaybackSourceJson::File { path } ==> spec is File && spec->path@ == path@,
        source matches PlaybackSourceJson::Buffer { samples, sample_rate, channels } ==> (
        spec matches PlaybackSourceSpec::Buffer { samples: s, sample_rate: r, channels: c } && s@
            == samples@ && r == sample_rate && c == channels),
{
}

/// The tools of the engine are these, and no others.
pub proof fn law_tools_are_these(name: Seq<char>)
    ensures
        tool_names().len() == 16,
        tool_names().contains(name) <==> {
            ||| name == "input_cancel"@
            ||| name == "input_describe"@
            ||| name == "input_levels"@
            ||| name == "input_list"@
            ||| name == "input_start"@
            ||| name == "input_status"@
            ||| name == "input_stop"@
            ||| name == "output_describe"@
            ||| name == "output_levels"@
            ||| name == "output_list"@
            ||| name == "output_pause"@
            ||| name == "output_resume"@
            ||| name == "output_seek"@
            ||| name == "output_start"@
            ||| name == "output_status"@
            ||| name == "output_stop"@
        },
{
    assert(tool_names()[0] == "input_cancel"@);
    assert(tool_names()[1] == "input_describe"@);
    assert(tool_names()[2] == "input_levels"@);
    assert(tool_names()[3] == "input_list"@);
    assert(tool_names()[4] == "input_start"@);
    assert(tool_names()[5] == "input_status"@);
    assert(tool_names()[6] == "input_stop"@);
    assert(tool_names()[7] == "output_describe"@);
    assert(tool_names()[8] == "output_levels"@);
    assert(tool_names()[9] == "output_list"@);
    assert(tool_names()[10] == "output_pause"@);
    assert(tool_names()[11] == "output_resume"@);
    assert(tool_names()[12] == "output_seek"@);
    assert(tool_names()[13] == "output_start"@);
    assert(tool_names()[14] == "output_status"@);
    assert(tool_names()[15] == "output_stop"@);
}

} // verus!
