//! Tool names, allow-lists, identifiers and what the tools answer.
use octave::audio_devices::types::{
    Backend, BufferSize, DeviceError, DeviceId, InputCapabilities, InputDeviceInfo,
};
use octave::engine::handler as engine;
use octave::handler::engine_command::EngineCommand;
use octave::handler::server::HandlerServer;
use octave::handler::HandlerError;
use octave::mcp::audio_actor::{
    sent, ActorError, CancelReply, Command, PlaybackSessionError, PlaybackStartError,
    PlaybackStartReply, SendOutcome, SessionError, StartReply, StartReplyError,
};
use octave::mcp::handler as mcp;
use octave::mcp::types::{
    BackendJson, BufferSizeJson, CapabilitiesJson, DeviceInfoJson, RecorderStateJson, SessionArgs,
    StartArgs,
};
use octave::mcp::ServerError;
use octave::player::types::PlaybackSourceSpec;
use octave::recorder::state::RecorderState;
use octave::tools::{enabled_tools, parse_tools, ErrorCode, ToolError};

const ID: &str = "67e55044-10b1-426f-9247-bb680e5fe0c8";
const ID_VALUE: u128 = 0x67e5_5044_10b1_426f_9247_bb68_0e5f_e0c8;

fn says(e: ToolError) -> (ErrorCode, String) {
    (e.code, e.message)
}

fn invalid_params(m: &str) -> (ErrorCode, String) {
    (ErrorCode::InvalidParams, m.to_string())
}

fn internal(m: &str) -> (ErrorCode, String) {
    (ErrorCode::InternalError, m.to_string())
}

fn invalid_request(m: &str) -> (ErrorCode, String) {
    (ErrorCode::InvalidRequest, m.to_string())
}

#[test]
fn lib_parse_tools_env_handles_unset_empty_and_whitespace() {
    assert!(parse_tools(None).is_none(), "unset → None");
    assert!(parse_tools(Some("")).is_none(), "empty → None");
    assert!(parse_tools(Some("  ,  ,")).is_none(), "whitespace+commas → None");

    let s = parse_tools(Some(" input_start , input_stop ,input_start")).expect("Some");
    assert_eq!(s.len(), 2);
    assert!(s.contains(&"input_start".to_string()));
    assert!(s.contains(&"input_stop".to_string()));

    let s = parse_tools(Some(" recording_start , recording_stop ,recording_start")).expect("Some");
    assert_eq!(s.len(), 2);
    assert!(s.contains(&"recording_start".to_string()));
    assert!(s.contains(&"recording_stop".to_string()));
}

#[test]
fn all_tool_names_matches_published_set_of_16() {
    let mut got = engine::OctaveServer::all_tool_names();
    got.sort();
    let expected = [
        "input_cancel",
        "input_describe",
        "input_levels",
        "input_list",
        "input_start",
        "input_status",
        "input_stop",
        "output_describe",
        "output_levels",
        "output_list",
        "output_pause",
        "output_resume",
        "output_seek",
        "output_start",
        "output_status",
        "output_stop",
    ];
    assert_eq!(got.len(), 16, "expected 16 tools, got {}: {got:?}", got.len());
    assert_eq!(got.iter().map(String::as_str).collect::<Vec<_>>(), expected);
}

#[test]
fn tool_names_come_sorted() {
    for names in [
        engine::OctaveServer::all_tool_names(),
        mcp::OctaveServer::all_tool_names(),
        HandlerServer::all_tool_names(),
    ] {
        let mut sorted = names.clone();
        sorted.sort();
        assert_eq!(names, sorted);
    }
    assert_eq!(mcp::OctaveServer::all_tool_names().len(), 7);
    assert_eq!(HandlerServer::all_tool_names().len(), 12);
}

#[test]
fn an_allow_list_leaves_the_known_tools_that_it_names() {
    let allowed = vec!["output_stop".to_string(), "nope".to_string(), "input_list".to_string()];
    let (server, enabled) = engine::OctaveServer::with_allowed_tools(&allowed);
    assert_eq!(enabled, vec!["input_list", "output_stop"]);
    assert!(server.accepts("input_list"));
    assert!(!server.accepts("nope"));
    assert!(!server.accepts("input_stop"));
    assert!(engine::OctaveServer::new().accepts("input_stop"));

    let (server, enabled) = mcp::OctaveServer::with_allowed_tools(&vec!["recording_stop".into()]);
    assert_eq!(enabled, vec!["recording_stop"]);
    assert!(!server.accepts("recording_start"));
    assert!(mcp::OctaveServer::new().accepts("recording_start"));

    let known = vec!["a".to_string(), "b".to_string()];
    assert!(enabled_tools(&known, &Vec::new()).is_empty());
}

#[test]
fn tool_names_are_trimmed_of_unicode_space_too() {
    let s = parse_tools(Some("\u{2003}input_list\u{a0},\tinput stop\n")).unwrap();
    assert_eq!(s, vec!["input_list", "input stop"]);
}

#[test]
fn identifiers_parse_in_every_uuid_form() {
    assert_eq!(mcp::parse_session_id(ID).unwrap(), ID_VALUE);
    assert_eq!(engine::parse_stream_id(&ID.to_uppercase()).unwrap(), ID_VALUE);
    assert_eq!(engine::parse_stream_id(&ID.replace('-', "")).unwrap(), ID_VALUE);
    assert_eq!(
        says(mcp::parse_session_id("nope").unwrap_err()),
        invalid_params("invalid session_id: nope is not a UUID")
    );
    assert_eq!(
        says(engine::parse_stream_id("").unwrap_err()),
        invalid_params("invalid stream_id:  is not a UUID")
    );
    assert_eq!(mcp::session_id_or_error("x", Some(7)).unwrap(), 7);
    assert_eq!(
        says(engine::stream_id_or_error("x", None).unwrap_err()),
        invalid_params("invalid stream_id: x is not a UUID")
    );
}

#[test]
fn session_tools_become_commands() {
    let args = SessionArgs { session_id: ID.to_string() };
    assert!(matches!(mcp::recording_stop(&args), Ok(Command::Stop { session_id: ID_VALUE })));
    assert!(matches!(mcp::recording_cancel(&args), Ok(Command::Cancel { session_id: ID_VALUE })));
    assert!(matches!(
        mcp::recording_get_levels(&args),
        Ok(Command::GetLevels { session_id: ID_VALUE })
    ));
    assert!(matches!(
        mcp::recording_get_status(&args),
        Ok(Command::GetStatus { session_id: ID_VALUE })
    ));
    let bad = SessionArgs { session_id: "7".to_string() };
    assert_eq!(
        says(mcp::recording_stop(&bad).unwrap_err()),
        invalid_params("invalid session_id: 7 is not a UUID")
    );
}

#[test]
fn a_start_carries_its_arguments_over() {
    let args = StartArgs {
        device_id: "ALSA:hw".to_string(),
        sample_rate: 96_000,
        buffer_size: BufferSizeJson::Fixed { samples: 64 },
        channels: 1,
        output_path: "/tmp/a.wav".to_string(),
    };
    let Command::StartRecording { spec, output_path } = mcp::recording_start(args) else {
        panic!("expected a start");
    };
    assert_eq!(spec.device_id, DeviceId("ALSA:hw".to_string()));
    assert_eq!(spec.sample_rate, 96_000);
    assert_eq!(spec.buffer_size, BufferSize::Fixed(64));
    assert_eq!(spec.channels, 1);
    assert_eq!(output_path, "/tmp/a.wav");
}

#[test]
fn start_replies_become_results_and_errors() {
    let ok = mcp::recording_started(Ok(StartReply {
        session_id: ID_VALUE,
        started_at: 1_700_000_000_999_999_999,
    }))
    .unwrap();
    assert_eq!(ok.session_id, ID);
    assert_eq!(ok.started_at_unix_seconds, 1_700_000_000);
    assert_eq!(
        says(mcp::recording_started(Err(StartReplyError::Open("x".into()))).unwrap_err()),
        invalid_params("x")
    );
    assert_eq!(
        says(mcp::recording_started(Err(StartReplyError::Arm("x".into()))).unwrap_err()),
        internal("x")
    );
    assert_eq!(
        says(engine::input_started(Err(StartReplyError::Record("x".into()))).unwrap_err()),
        internal("x")
    );
    assert_eq!(
        says(mcp::recording_started(Err(StartReplyError::TooManySessions)).unwrap_err()),
        invalid_request("TooManySessions: 8 concurrent recording sessions max in v0.1")
    );
    assert_eq!(
        says(engine::input_started(Err(StartReplyError::TooManySessions)).unwrap_err()),
        invalid_request("TooManySessions: 8 concurrent recording streams max in v0.1")
    );
    let ok = engine::input_started(Ok(StartReply { session_id: 1, started_at: 5 })).unwrap();
    assert_eq!(ok.stream_id, "00000000-0000-0000-0000-000000000001");
    assert_eq!(ok.started_at_unix_seconds, 0);
}

#[test]
fn session_replies_become_results_and_errors() {
    assert_eq!(mcp::session_reply(Ok(3)).unwrap(), 3);
    assert_eq!(
        says(mcp::session_reply::<u8>(Err(SessionError::NotFound(ID_VALUE))).unwrap_err()),
        invalid_params(&format!("session_not_found: {ID}"))
    );
    assert_eq!(
        says(engine::input_reply::<u8>(Err(SessionError::NotFound(ID_VALUE))).unwrap_err()),
        invalid_params(&format!("stream_not_found: {ID}"))
    );
    assert_eq!(
        says(mcp::session_reply::<u8>(Err(SessionError::Stop("late".into()))).unwrap_err()),
        internal("StopError::late")
    );
    assert_eq!(
        says(engine::input_reply::<u8>(Err(SessionError::Cancel("late".into()))).unwrap_err()),
        internal("CancelError::late")
    );
    assert_eq!(engine::output_reply(Ok("x")).unwrap(), "x");
    assert_eq!(
        says(engine::output_reply::<u8>(Err(PlaybackSessionError::NotFound(ID_VALUE))).unwrap_err()),
        invalid_params(&format!("stream_not_found: {ID}"))
    );
    assert_eq!(
        says(engine::output_reply::<u8>(Err(PlaybackSessionError::Seek("far".into()))).unwrap_err()),
        internal("seek: far")
    );
    assert_eq!(
        says(
            engine::output_reply::<u8>(Err(PlaybackSessionError::Transport("no".into())))
                .unwrap_err()
        ),
        internal("transport: no")
    );
}

#[test]
fn the_actor_queue_reports_what_became_of_a_command() {
    assert_eq!(sent(SendOutcome::Sent), Ok(()));
    assert_eq!(sent(SendOutcome::Full), Err(ActorError::QueueFull));
    assert_eq!(sent(SendOutcome::Disconnected), Err(ActorError::Gone));
    assert_eq!(
        says(mcp::actor_error(ActorError::QueueFull)),
        internal("audio-command queue is full")
    );
    assert_eq!(
        says(mcp::actor_error(ActorError::Gone)),
        internal("audio-management thread is gone")
    );
    assert_eq!(
        ActorError::ReplyLost.message(),
        "audio-management thread dropped the reply channel"
    );
    assert_eq!(says(mcp::reply_lost()), internal("audio actor dropped reply"));
}

#[test]
fn a_cancel_reports_whether_the_file_is_gone() {
    let reply = CancelReply { path: "/tmp/a.wav".to_string(), delete: None };
    let r = mcp::cancel_result(reply, true);
    assert_eq!((r.path.as_str(), r.deleted), ("/tmp/a.wav", false));
    let reply = CancelReply { path: "/tmp/a.wav".to_string(), delete: None };
    assert!(mcp::cancel_result(reply, false).deleted);
}

#[test]
fn device_errors_are_told_as_debug_text() {
    let not_found = DeviceError::DeviceNotFound { id: DeviceId("ALSA:\"x\"\n".to_string()) };
    assert_eq!(
        engine::format_typed_error("OpenError", &not_found),
        format!("OpenError::{not_found:?}")
    );
    assert_eq!(
        engine::format_typed_error("OpenError", &not_found),
        "OpenError::DeviceNotFound { id: DeviceId(\"ALSA:\\\"x\\\"\\n\") }"
    );
    let backend = DeviceError::BackendError("no server".to_string());
    assert_eq!(
        says(engine::describe_error("DeviceError", &backend)),
        invalid_params("DeviceError::BackendError(\"no server\")")
    );
}

fn buffer(samples: Vec<u32>) -> engine::PlaybackStartArgs {
    engine::PlaybackStartArgs {
        device_id: "ALSA:hw".to_string(),
        source: engine::PlaybackSourceJson::Buffer { samples, sample_rate: 48_000, channels: 2 },
        buffer_size: BufferSizeJson::Default,
    }
}

#[test]
fn a_buffer_source_is_shared_as_it_is() {
    let Ok(Command::PlaybackStart { spec }) = engine::output_start(buffer(vec![1, 2, 3, 4])) else {
        panic!("expected a start");
    };
    assert_eq!(spec.device_id.0, "ALSA:hw");
    assert_eq!(spec.buffer_size, BufferSize::Default);
    let PlaybackSourceSpec::Buffer { samples, sample_rate, channels } = spec.source else {
        panic!("expected a buffer");
    };
    assert_eq!(&samples[..], &[1, 2, 3, 4]);
    assert_eq!((sample_rate, channels), (48_000, 2));

    let file = engine::PlaybackStartArgs {
        device_id: "d".to_string(),
        source: engine::PlaybackSourceJson::File { path: "/a.wav".to_string() },
        buffer_size: BufferSizeJson::Fixed { samples: 128 },
    };
    let Ok(Command::PlaybackStart { spec }) = engine::output_start(file) else {
        panic!("expected a start");
    };
    assert!(matches!(spec.source, PlaybackSourceSpec::File { path } if path == "/a.wav"));
    assert_eq!(spec.buffer_size, BufferSize::Fixed(128));
}

#[test]
fn a_buffer_source_over_the_cap_is_refused() {
    assert!(engine::output_start(buffer(vec![0; engine::MAX_BUFFER_SAMPLES])).is_ok());
    assert_eq!(
        says(engine::output_start(buffer(vec![0; engine::MAX_BUFFER_SAMPLES + 1])).unwrap_err()),
        invalid_params(
            "buffer source too large (26214401 samples > 26214400 cap); use a file source"
        )
    );
}

#[test]
fn playback_start_replies_become_results_and_errors() {
    let ok = engine::output_started(Ok(PlaybackStartReply {
        session_id: ID_VALUE,
        started_at: 2_000_000_001,
        duration_frames: Some(96_000),
        sample_rate: 48_000,
        channels: 2,
    }))
    .unwrap();
    assert_eq!(ok.stream_id, ID);
    assert_eq!(ok.started_at_unix_seconds, 2);
    assert_eq!((ok.duration_frames, ok.sample_rate, ok.channels), (Some(96_000), 48_000, 2));
    assert_eq!(
        says(
            engine::output_started(Err(PlaybackStartError::AlreadyPlaying {
                current_session: ID_VALUE
            }))
            .unwrap_err()
        ),
        invalid_request(&format!("AlreadyPlaying: current_stream={ID}"))
    );
    assert_eq!(
        says(engine::output_started(Err(PlaybackStartError::Start("x".into()))).unwrap_err()),
        invalid_params("x")
    );
}

#[test]
fn a_seek_prefers_frames_over_seconds() {
    let args = |stream_id: &str, position_seconds, position_frames| engine::PlaybackSeekArgs {
        stream_id: stream_id.to_string(),
        position_seconds,
        position_frames,
    };
    let secs = 1.5f64.to_bits();
    assert!(matches!(
        engine::output_seek(&args(ID, Some(secs), Some(9))),
        Ok(engine::SeekPlan::Frames { stream_id: ID_VALUE, target_frames: 9 })
    ));
    assert!(matches!(
        engine::output_seek(&args(ID, Some(secs), None)),
        Ok(engine::SeekPlan::Seconds { stream_id: ID_VALUE, position_seconds }) if position_seconds == secs
    ));
    assert_eq!(
        says(engine::output_seek(&args(ID, None, None)).unwrap_err()),
        invalid_params("output_seek: provide position_seconds or position_frames")
    );
    assert_eq!(
        says(engine::output_seek(&args("x", None, None)).unwrap_err()),
        invalid_params("invalid stream_id: x is not a UUID")
    );
    assert!(matches!(
        engine::plan_seek(&args("x", None, Some(4)), 5),
        Ok(engine::SeekPlan::Frames { stream_id: 5, target_frames: 4 })
    ));
}

#[test]
fn wire_types_mirror_the_library_types() {
    assert_eq!(BackendJson::from(Backend::PipeWire), BackendJson::PipeWire);
    assert_eq!(
        BackendJson::from(Backend::Other("sndio".into())),
        BackendJson::Other("sndio".into())
    );
    assert_eq!(RecorderStateJson::from(RecorderState::Cancelling), RecorderStateJson::Cancelling);
    assert_eq!(BufferSize::from(BufferSizeJson::Default), BufferSize::Default);
    let d = DeviceInfoJson::from(InputDeviceInfo {
        id: DeviceId("ALSA:mic".into()),
        name: "mic".into(),
        backend: Backend::Alsa,
        is_default_input: true,
        is_class_compliant_usb: false,
        max_input_channels: 2,
    });
    assert_eq!((d.device_id.as_str(), d.name.as_str()), ("ALSA:mic", "mic"));
    assert_eq!(d.backend, BackendJson::Alsa);
    assert_eq!((d.is_default_input, d.max_input_channels), (true, 2));
    let c = CapabilitiesJson::from(InputCapabilities {
        min_sample_rate: 1,
        max_sample_rate: 2,
        supported_sample_rates: vec![3],
        min_buffer_size: 4,
        max_buffer_size: 5,
        channels: vec![6],
        default_sample_rate: 7,
        default_buffer_size: 8,
    });
    assert_eq!((c.min_sample_rate, c.max_sample_rate), (1, 2));
    assert_eq!((c.supported_sample_rates, c.channels), (vec![3], vec![6]));
    assert_eq!((c.min_buffer_size, c.max_buffer_size), (4, 5));
    assert_eq!((c.default_sample_rate, c.default_buffer_size), (7, 8));
}

#[test]
fn the_engine_command_has_defaults_and_overrides() {
    let d = EngineCommand::default_dev(None, None, None);
    assert_eq!(d.program, "cargo");
    assert_eq!(d.args, vec!["run", "-q", "-p", "octave-engine"]);
    assert_eq!(d.cwd, None);
    let d = EngineCommand::default_dev(
        Some("/bin/engine".into()),
        Some("--a,,b".into()),
        Some("/srv".into()),
    );
    assert_eq!(d.program, "/bin/engine");
    assert_eq!(d.args, vec!["--a", "", "b"]);
    assert_eq!(d.cwd.as_deref(), Some("/srv"));
    assert_eq!(EngineCommand::default_dev(None, Some(String::new()), None).args, vec![""]);
}

#[test]
fn server_errors_have_their_texts() {
    assert_eq!(ServerError::Io("x".into()).message(), "io: x");
    assert_eq!(ServerError::Rmcp("x".into()).message(), "rmcp: x");
    assert_eq!(
        ServerError::AudioThreadSpawn("x".into()).message(),
        "audio-management thread spawn failed: x"
    );
    assert_eq!(HandlerError::Io("x".into()).message(), "io: x");
    assert_eq!(HandlerError::Rmcp("x".into()).message(), "rmcp: x");
    assert_eq!(HandlerError::EngineSpawn("x".into()).message(), "engine spawn failed: x");
}
