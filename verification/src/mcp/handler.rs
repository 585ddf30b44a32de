//! What the recording tools answer.
use super::audio_actor::{
    spec_from_args, ActorError, CancelReply, Command, SessionError, StartReply, StartReplyError,
};
use super::types::{BufferSizeJson, CancelResult, SessionArgs, StartArgs, StartResult};
use crate::audio_devices::types::{BufferSize, DeviceId};
use crate::ids::{hyphenated, parse_uuid, uuid_parsed, uuid_text};
use crate::recorder::RecordingSpec;
use crate::strings::texts;
use crate::tools::{enabled_of, enabled_tools, has_name, ErrorCode, ToolError};
use vstd::prelude::*;
use vstd::string::*;

verus! {

/// The names of the tools, sorted.
pub open spec fn tool_names() -> Seq<Seq<char>> {
    seq![
        "recording_cancel"@,
        "recording_describe_device"@,
        "recording_get_levels"@,
        "recording_get_status"@,
        "recording_list_devices"@,
        "recording_start"@,
        "recording_stop"@,
    ]
}

/// The recording tool server, as far as it knows which tools are on.
#[derive(Debug)]
pub struct OctaveServer {
    enabled: Vec<String>,
}

impl View for OctaveServer {
    type V = Seq<Seq<char>>;

    closed spec fn view(&self) -> Seq<Seq<char>> {
        texts(self.enabled@)
    }
}

impl OctaveServer {
    /// All tools are on.
    pub fn new() -> (r: OctaveServer)
        ensures
            r@ == tool_names(),
    {
        OctaveServer { enabled: OctaveServer::all_tool_names() }
    }

    /// Only the allowed tools are on. Returns their names too; names that are not
    /// known are ignored.
    pub fn with_allowed_tools(allowed: &Vec<String>) -> (r: (OctaveServer, Vec<String>))
        ensures
            r.0@ == enabled_of(tool_names(), texts(allowed@)),
            texts(r.1@) == r.0@,
    {
        let known: Vec<String> = OctaveServer::all_tool_names();
        let enabled: Vec<String> = enabled_tools(&known, allowed);
        let again: Vec<String> = enabled_tools(&known, allowed);
        (OctaveServer { enabled }, again)
    }

    /// Is the tool on?
    pub fn accepts(&self, name: &str) -> (r: bool)
        ensures
            r == self@.contains(name@),
    {
        has_name(&self.enabled, name)
    }

    /// The names of all tools, on or off, sorted.
    pub fn all_tool_names() -> (r: Vec<String>)
        ensures
            texts(r@) == tool_names(),
    {
        let mut v: Vec<String> = Vec::new();
        v.push("recording_cancel".to_owned());
        v.push("recording_describe_device".to_owned());
        v.push("recording_get_levels".to_owned());
        v.push("recording_get_status".to_owned());
        v.push("recording_list_devices".to_owned());
        v.push("recording_start".to_owned());
        v.push("recording_stop".to_owned());
        proof {
            assert(texts(v@) =~= tool_names());
        }
        v
    }
}

/// The session that a text names.
pub fn parse_session_id(s: &str) -> (r: Result<u128, ToolError>)
    ensures
        match uuid_parsed(s@) {
            Some(id) => r matches Ok(x) && x == id,
            None => r matches Err(e) && e.says(
                ErrorCode::InvalidParams,
                "invalid session_id: "@ + s@ + " is not a UUID"@,
            ),
        },
{
    session_id_or_error(s, parse_uuid(s))
}

/// The session that a text names, given what parsing it came to.
pub fn session_id_or_error(s: &str, parsed: Option<u128>) -> (r: Result<u128, ToolError>)
    ensures
        match parsed {
            Some(id) => r matches Ok(x) && x == id,
            None => r matches Err(e) && e.says(
                ErrorCode::InvalidParams,
                "invalid session_id: "@ + s@ + " is not a UUID"@,
            ),
        },
{
    match parsed {
        Some(id) => Ok(id),
        None => {
            let mut m: String = "invalid session_id: ".to_owned();
            m.append(s);
            m.append(" is not a UUID");
            Err(ToolError::invalid_params(m))
        },
    }
}

/// The command of `recording_start`.
pub fn recording_start(args: StartArgs) -> (r: Command)
    ensures
        r == (Command::StartRecording {
            spec: RecordingSpec {
                device_id: DeviceId(args.device_id),
                sample_rate: args.sample_rate,
                buffer_size: match args.buffer_size {
                    BufferSizeJson::Default => BufferSize::Default,
                    BufferSizeJson::Fixed { samples } => BufferSize::Fixed(samples),
                },
                channels: args.channels,
            },
            output_path: args.output_path,
        }),
{
    let spec: RecordingSpec = spec_from_args(
        args.device_id,
        args.sample_rate,
        BufferSize::from(args.buffer_size),
        args.channels,
    );
    Command::StartRecording { spec, output_path: args.output_path }
}

/// The tool error of a command that did not reach the actor.
pub fn actor_error(e: ActorError) -> (r: ToolError)
    ensures
        r.says(ErrorCode::InternalError, e.text()),
{
    ToolError::internal_error(e.message())
}

/// The tool error of an answer that did not come back.
pub fn reply_lost() -> (r: ToolError)
    ensures
        r.says(ErrorCode::InternalError, "audio actor dropped reply"@),
{
    ToolError::internal_error("audio actor dropped reply".to_owned())
}

/// What starting failed with: a device or format that cannot be had is the
/// caller's error, everything later the server's.
pub open spec fn start_fault(e: StartReplyError, limit: Seq<char>, t: ToolError) -> bool {
    match e {
        StartReplyError::Open(s) => t.says(ErrorCode::InvalidParams, s@),
        StartReplyError::Arm(s) => t.says(ErrorCode::InternalError, s@),
        StartReplyError::Record(s) => t.says(ErrorCode::InternalError, s@),
        StartReplyError::TooManySessions => t.says(ErrorCode::InvalidRequest, limit),
    }
}

/// The tool error of a recording that did not start; `limit` is said where too
/// many run.
pub fn start_error(e: StartReplyError, limit: &str) -> (r: ToolError)
    ensures
        start_fault(e, limit@, r),
{
    match e {
        StartReplyError::Open(s) => ToolError::invalid_params(s),
        StartReplyError::Arm(s) => ToolError::internal_error(s),
        StartReplyError::Record(s) => ToolError::internal_error(s),
        StartReplyError::TooManySessions => ToolError::invalid_request(limit.to_owned()),
    }
}

/// The answer of `recording_start`.
pub fn recording_started(reply: Result<StartReply, StartReplyError>) -> (r: Result<
    StartResult,
    ToolError,
>)
    ensures
        match reply {
            Ok(x) => r matches Ok(y) && y.session_id@ == hyphenated(x.session_id) && uuid_parsed(
                y.session_id@,
            ) == Some(x.session_id) && y.started_at_unix_seconds == x.started_at / 1_000_000_000,
            Err(e) => r matches Err(t) && start_fault(
                e,
                "TooManySessions: 8 concurrent recording sessions max in v0.1"@,
                t,
            ),
        },
{
    match reply {
        Ok(x) => Ok(
            StartResult {
                session_id: uuid_text(x.session_id),
                started_at_unix_seconds: x.started_at / 1_000_000_000,
            },
        ),
        Err(e) => Err(
            start_error(e, "TooManySessions: 8 concurrent recording sessions max in v0.1"),
        ),
    }
}

/// The tool error of a command on a session that failed: an unknown session is
/// the caller's error.
pub open spec fn session_fault(e: SessionError, prefix: Seq<char>, t: ToolError) -> bool {
    match e {
        SessionError::NotFound(id) => t.says(ErrorCode::InvalidParams, prefix + hyphenated(id)),
        _ => t.says(ErrorCode::InternalError, e.text()),
    }
}

/// The tool error of a command on a session that failed; `prefix` comes before an
/// unknown session's identifier.
pub fn session_error(e: &SessionError, prefix: &str) -> (r: ToolError)
    ensures
        session_fault(*e, prefix@, r),
{
    match e {
        SessionError::NotFound(id) => {
            let mut m: String = prefix.to_owned();
            let t: String = uuid_text(*id);
            m.append(t.as_str());
            ToolError::invalid_params(m)
        },
        _ => ToolError::internal_error(e.message()),
    }
}

/// The answer of a tool on a session.
pub fn session_reply<T>(reply: Result<T, SessionError>) -> (r: Result<T, ToolError>)
    ensures
        match reply {
            Ok(x) => r matches Ok(y) && y == x,
            Err(e) => r matches Err(t) && session_fault(e, "session_not_found: "@, t),
        },
{
    match reply {
        Ok(x) => Ok(x),
        Err(e) => Err(session_error(&e, "session_not_found: ")),
    }
}

/// The answer of a cancelling tool, given whether a file is still there once the
/// partial file was deleted.
pub fn cancel_result(reply: CancelReply, still_there: bool) -> (r: CancelResult)
    ensures
        r == (CancelResult { path: reply.path, deleted: !still_there }),
{
    CancelResult { path: reply.path, deleted: !still_there }
}

/// The command of a tool on a session, by the text of its identifier.
pub fn recording_stop(args: &SessionArgs) -> (r: Result<Command, ToolError>)
    ensures
        match uuid_parsed(args.session_id@) {
            Some(id) => r matches Ok(c) && c == (Command::Stop { session_id: id }),
            None => r matches Err(e) && e.says(
                ErrorCode::InvalidParams,
                "invalid session_id: "@ + args.session_id@ + " is not a UUID"@,
            ),
        },
{
    match parse_session_id(args.session_id.as_str()) {
        Ok(session_id) => Ok(Command::Stop { session_id }),
        Err(e) => Err(e),
    }
}

/// The command of `recording_cancel`.
pub fn recording_cancel(args: &SessionArgs) -> (r: Result<Command, ToolError>)
    ensures
        match uuid_parsed(args.session_id@) {
            Some(id) => r matches Ok(c) && c == (Command::Cancel { session_id: id }),
            None => r matches Err(e) && e.says(
                ErrorCode::InvalidParams,
                "invalid session_id: "@ + args.session_id@ + " is not a UUID"@,
            ),
        },
{
    match parse_session_id(args.session_id.as_str()) {
        Ok(session_id) => Ok(Command::Cancel { session_id }),
        Err(e) => Err(e),
    }
}

/// The command of `recording_get_levels`.
pub fn recording_get_levels(args: &SessionArgs) -> (r: Result<Command, ToolError>)
    ensures
        match uuid_parsed(args.session_id@) {
            Some(id) => r matches Ok(c) && c == (Command::GetLevels { session_id: id }),
            None => r matches Err(e) && e.says(
                ErrorCode::InvalidParams,
                "invalid session_id: "@ + args.session_id@ + " is not a UUID"@,
            ),
        },
{
    match parse_session_id(args.session_id.as_str()) {
        Ok(session_id) => Ok(Command::GetLevels { session_id }),
        Err(e) => Err(e),
    }
}

/// The command of `recording_get_status`.
pub fn recording_get_status(args: &SessionArgs) -> (r: Result<Command, ToolError>)
    ensures
        match uuid_parsed(args.session_id@) {
            Some(id) => r matches Ok(c) && c == (Command::GetStatus { session_id: id }),
            None => r matches Err(e) && e.says(
                ErrorCode::InvalidParams,
                "invalid session_id: "@ + args.session_id@ + " is not a UUID"@,
            ),
        },
{
    match parse_session_id(args.session_id.as_str()) {
        Ok(session_id) => Ok(Command::GetStatus { session_id }),
        Err(e) => Err(e),
    }
}

/// Whose fault a refused start is: a device that cannot be opened is the caller's, too
/// many sessions are the request's, and all else is internal. The text is handed on.
pub proof fn law_start_faults_are_told_apart(e: StartReplyError, limit: Seq<char>, t: ToolError)
    requires
        start_fault(e, limit, t),
    ensures
        e is Open <==> t.code == ErrorCode::InvalidParams,
        e is TooManySessions <==> t.code == ErrorCode::InvalidRequest,
        e is Arm || e is Record <==> t.code == ErrorCode::InternalError,
        e matches StartReplyError::Open(m) ==> t.message@ == m@,
        e matches StartReplyError::Arm(m) ==> t.message@ == m@,
        e matches StartReplyError::Record(m) ==> t.message@ == m@,
        e is TooManySessions ==> t.message@ == limit,
{
}

/// An unknown session is the caller's fault, and all else is internal.
pub proof fn law_session_faults_are_told_apart(e: SessionError, prefix: Seq<char>, t: ToolError)
    requires
        session_fault(e, prefix, t),
    ensures
        e is NotFound <==> t.code == ErrorCode::InvalidParams,
        !(e is NotFound) <==> t.code == ErrorCode::InternalError,
        e matches SessionError::NotFound(id) ==> t.message@ == prefix + hyphenated(id),
{
}

/// The tools of the recording server are these, and no others.
pub proof fn law_tools_are_these(name: Seq<char>)
    ensures
        tool_names().len() == 7,
        tool_names().contains(name) <==> {
            ||| name == "recording_cancel"@
            ||| name == "recording_describe_device"@
            ||| name == "recording_get_levels"@
            ||| name == "recording_get_status"@
            ||| name == "recording_list_devices"@
            ||| name == "recording_start"@
            ||| name == "recording_stop"@
        },
{
    assert(tool_names()[0] == "recording_cancel"@);
    assert(tool_names()[1] == "recording_describe_device"@);
    assert(tool_names()[2] == "recording_get_levels"@);
    assert(tool_names()[3] == "recording_get_status"@);
    assert(tool_names()[4] == "recording_list_devices"@);
    assert(tool_names()[5] == "recording_start"@);
    assert(tool_names()[6] == "recording_stop"@);
}

} // verus!
