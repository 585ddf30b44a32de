//! The intent layer: its state, its tools and the mono fold.
use octave::handler::mono_fold::fold_stereo_to_mono_left;
use octave::handler::server::{
    active_play_stream, default_direction_output, default_true, devices_list, engine_call_error,
    folds, parse_engine_result, peak_of_take, play_start, play_started, play_started_as, play_stop,
    record_start, record_started, record_started_as, record_stop, record_stopped,
    record_stopped_as, take_file_name, takes_delete, takes_deleted, validation_to_error,
    DevicesListArgs, Direction, EngineClip, HandlerServer, PlaySourceArg, PlayStartArgs,
    RecordStartArgs, SessionRefArgs, TakeIdArgs,
};
use octave::handler::state::{
    new_session_id, now_unix_seconds, AppState, PlaybackSessionState, PlaybackSource,
    RecordingSessionState, TakeMetadata, ValidationError, MAX_TAKES,
};
use octave::tools::{ErrorCode, ToolError};
use uuid::Uuid;

fn fake_recording() -> RecordingSessionState {
    RecordingSessionState {
        session_id: "rec-1".into(),
        engine_stream_id: "stream-1".into(),
        output_path: "/tmp/take.wav".into(),
        mono_fold: true,
        started_at_unix_seconds: 0,
    }
}

fn fake_playback() -> PlaybackSessionState {
    PlaybackSessionState {
        session_id: "play-1".into(),
        engine_stream_id: "stream-2".into(),
        source: PlaybackSource::File { path: "/tmp/take.wav".into() },
        started_at_unix_seconds: 0,
    }
}

fn fake_take(take_id: &str) -> TakeMetadata {
    TakeMetadata {
        take_id: take_id.into(),
        path: format!("/tmp/{take_id}.wav"),
        sample_rate: 48_000,
        channels: 2,
        duration_seconds: 1.0f64.to_bits(),
        peak_dbfs: (-10.0f32).to_bits(),
        recorded_at_unix_seconds: 0,
        mono_folded: true,
    }
}

#[test]
fn record_start_rejected_when_already_recording() {
    let s = AppState { recording: Some(fake_recording()), ..AppState::default() };
    match s.validate_record_start() {
        Err(ValidationError::AlreadyRecording { active_session }) => {
            assert_eq!(active_session, "rec-1");
        }
        other => panic!("expected AlreadyRecording, got {other:?}"),
    }
}

#[test]
fn record_stop_rejected_when_idle() {
    let s = AppState::default();
    match s.validate_record_stop(None) {
        Err(ValidationError::NotRecording) => {}
        other => panic!("expected NotRecording, got {other:?}"),
    }
}

#[test]
fn record_stop_rejected_with_wrong_session_id() {
    let s = AppState { recording: Some(fake_recording()), ..AppState::default() };
    match s.validate_record_stop(Some("wrong-id")) {
        Err(ValidationError::SessionNotFound { session_id }) => {
            assert_eq!(session_id, "wrong-id");
        }
        other => panic!("expected SessionNotFound, got {other:?}"),
    }
}

#[test]
fn record_stop_accepts_correct_session_id_or_none() {
    let s = AppState { recording: Some(fake_recording()), ..AppState::default() };
    s.validate_record_stop(None).expect("None should match active");
    s.validate_record_stop(Some("rec-1")).expect("matching id should succeed");
}

#[test]
fn play_start_rejected_when_already_playing() {
    let s = AppState { playback: Some(fake_playback()), ..AppState::default() };
    match s.validate_play_start() {
        Err(ValidationError::AlreadyPlaying { active_session }) => {
            assert_eq!(active_session, "play-1");
        }
        other => panic!("expected AlreadyPlaying, got {other:?}"),
    }
}

#[test]
fn play_active_validators_reject_when_idle() {
    let s = AppState::default();
    assert!(matches!(s.validate_play_active(None), Err(ValidationError::NotPlayable)));
}

#[test]
fn resolve_devices_uses_override_then_selected_then_errors() {
    let mut s = AppState::default();
    assert!(s.resolve_input_device(None).is_err());
    s.selected_input_device = Some("DEV-A".into());
    assert_eq!(s.resolve_input_device(None).unwrap(), "DEV-A");
    assert_eq!(s.resolve_input_device(Some("DEV-B")).unwrap(), "DEV-B");
}

#[test]
fn apply_record_started_stops_subsequent_starts() {
    let mut s = AppState::default();
    s.validate_record_start().expect("clean start ok");
    let r0 = s.revision;
    s.apply_record_started(fake_recording());
    assert!(s.revision > r0, "revision must bump");
    s.validate_record_start().expect_err("second start must reject");
}

#[test]
fn apply_record_stopped_pushes_take_and_caps_history() {
    let mut s = AppState::default();
    for i in 0..(MAX_TAKES + 5) {
        s.apply_record_started(fake_recording());
        s.apply_record_stopped(Some(fake_take(&format!("t-{i}"))));
    }
    assert_eq!(s.takes.len(), MAX_TAKES, "history must cap at MAX_TAKES");
    assert_eq!(
        s.takes.first().unwrap().take_id,
        format!("t-{}", 5),
        "FIFO eviction keeps newest at the back",
    );
}

#[test]
fn apply_delete_take_removes_one_and_returns_it() {
    let mut s = AppState::default();
    s.takes.push(fake_take("a"));
    s.takes.push(fake_take("b"));
    let removed = s.apply_delete_take("a");
    assert!(removed.is_some());
    assert_eq!(s.takes.len(), 1);
    assert_eq!(s.takes[0].take_id, "b");
    let r = s.revision;
    assert!(s.apply_delete_take("nope").is_none());
    assert_eq!(s.revision, r);
}

#[test]
fn revision_increments_on_every_apply() {
    let mut s = AppState::default();
    let r0 = s.revision;
    s.apply_select_input(Some("X".into()));
    let r1 = s.revision;
    assert!(r1 > r0);
    s.apply_select_output(Some("Y".into()));
    let r2 = s.revision;
    assert!(r2 > r1);
}

#[test]
fn a_session_runs_from_start_to_take() {
    let mut s = HandlerServer::new().state;
    assert!(matches!(
        record_start(&s, &RecordStartArgs { device_id: None, mono: true }, "/tmp/t.wav".into()),
        Err(ValidationError::NoInputDeviceSelected)
    ));
    s.apply_select_input(Some("ALSA:mic".into()));
    let args = RecordStartArgs { device_id: None, mono: default_true() };
    let ask = record_start(&s, &args, "/tmp/t.wav".into()).unwrap();
    assert_eq!(ask.device_id, "ALSA:mic");
    assert_eq!((ask.sample_rate, ask.channels), (48_000, 2));
    assert_eq!(ask.output_path, "/tmp/t.wav");

    let r = record_started_as(
        &mut s,
        "sess".into(),
        "stream".into(),
        "/tmp/t.wav".into(),
        true,
        123,
    );
    assert_eq!((r.session_id.as_str(), r.output_path.as_str()), ("sess", "/tmp/t.wav"));
    assert_eq!(s.revision, 2);
    assert!(matches!(
        record_start(&s, &args, "/tmp/u.wav".into()),
        Err(ValidationError::AlreadyRecording { active_session }) if active_session == "sess"
    ));

    let stop = record_stop(&s, &SessionRefArgs { session_id: Some("sess".into()) }).unwrap();
    assert_eq!(stop.stream_id, "stream");
    assert!(stop.mono_fold);
    let clip = EngineClip {
        path: "/tmp/t.wav".into(),
        sample_rate: 48_000,
        channels: 2,
        started_at_unix_seconds: 120,
        duration_seconds: 2.5f64.to_bits(),
        peak_dbfs: vec![(-12.0f32).to_bits(), (-3.5f32).to_bits()],
    };
    assert!(folds(&stop, &clip));
    let take = record_stopped_as(&mut s, &stop, clip, "take".into());
    assert_eq!(take.take_id, "take");
    assert_eq!(f32::from_bits(take.peak_dbfs), -3.5);
    assert_eq!(f64::from_bits(take.duration_seconds), 2.5);
    assert_eq!(take.recorded_at_unix_seconds, 120);
    assert!(take.mono_folded);
    assert!(s.recording.is_none());
    assert_eq!(s.takes.len(), 1);
    assert_eq!(s.takes[0].path, "/tmp/t.wav");

    let play = PlayStartArgs {
        source: PlaySourceArg::Take { take_id: "take".into() },
        device_id: Some("ALSA:out".into()),
    };
    let ask = play_start(&s, &play).unwrap();
    assert_eq!((ask.device_id.as_str(), ask.path.as_str()), ("ALSA:out", "/tmp/t.wav"));
    let r = play_started_as(&mut s, "p".into(), "ps".into(), ask.source, 9);
    assert_eq!(r.session_id, "p");
    let any = SessionRefArgs { session_id: None };
    assert_eq!(active_play_stream(&s, &any).unwrap(), "ps");
    assert!(matches!(
        play_stop(&mut s, &SessionRefArgs { session_id: Some("q".into()) }),
        Err(ValidationError::SessionNotFound { session_id }) if session_id == "q"
    ));
    assert_eq!(play_stop(&mut s, &any).unwrap(), "ps");
    assert!(matches!(active_play_stream(&s, &any), Err(ValidationError::NotPlayable)));

    let removed = takes_delete(&mut s, &TakeIdArgs { take_id: "take".into() });
    assert_eq!(removed.as_deref(), Some("/tmp/t.wav"));
    let r = takes_deleted(&removed, false);
    assert_eq!((r.deleted, r.file_removed), (true, false));
    let r = takes_deleted(&takes_delete(&mut s, &TakeIdArgs { take_id: "take".into() }), true);
    assert_eq!((r.deleted, r.file_removed), (false, false));
    assert!(matches!(
        play_start(&s, &play),
        Err(ValidationError::UnknownTake { take_id }) if take_id == "take"
    ));
}

#[test]
fn minted_identifiers_are_random_uuids() {
    let a = new_session_id();
    let parsed = Uuid::parse_str(&a).unwrap();
    assert_eq!(parsed.get_version_num(), 4);
    assert_eq!(parsed.to_string(), a);
    let mut s = AppState::default();
    let r = record_started(&mut s, "x".into(), "/p".into(), false, 1);
    assert!(Uuid::parse_str(&r.session_id).is_ok());
    assert_eq!(s.recording.as_ref().unwrap().session_id, r.session_id);
    assert!(!s.recording.as_ref().unwrap().mono_fold);
    let stop = record_stop(&s, &SessionRefArgs { session_id: None }).unwrap();
    let clip = EngineClip {
        path: "/p".into(),
        sample_rate: 48_000,
        channels: 2,
        started_at_unix_seconds: 1,
        duration_seconds: 0,
        peak_dbfs: Vec::new(),
    };
    let take = record_stopped(&mut s, &stop, clip);
    assert!(Uuid::parse_str(&take.take_id).is_ok());
    assert!(!take.mono_folded);
    let r = play_started(&mut s, "y".into(), PlaybackSource::File { path: "/p".into() }, 2);
    assert!(Uuid::parse_str(&r.session_id).is_ok());
}

#[test]
fn the_loudest_channel_is_the_peak_of_a_take() {
    let peak = |levels: &[f32]| {
        let bits: Vec<u32> = levels.iter().map(|l| l.to_bits()).collect();
        f32::from_bits(peak_of_take(&bits))
    };
    assert_eq!(peak(&[-12.0, -3.0, -40.0]), -3.0);
    assert_eq!(peak(&[-1.0, 2.0]), 2.0);
    assert_eq!(peak(&[]), -180.0);
    assert_eq!(peak(&[f32::NEG_INFINITY]), -180.0);
    assert_eq!(peak(&[f32::INFINITY, -3.0]), -180.0);
    assert_eq!(peak(&[f32::NAN, -3.0]), -3.0);
    assert_eq!(peak(&[f32::NAN]), -180.0);
}

fn says(e: ToolError) -> (ErrorCode, String) {
    (e.code, e.message)
}

#[test]
fn validation_errors_have_their_texts() {
    let text = |e: ValidationError| {
        let t = validation_to_error(&e);
        assert_eq!(t.code, ErrorCode::InvalidRequest);
        t.message
    };
    assert_eq!(
        text(ValidationError::AlreadyRecording { active_session: "a".into() }),
        "a recording session is already active: a"
    );
    assert_eq!(text(ValidationError::NotRecording), "no recording session is active");
    assert_eq!(
        text(ValidationError::AlreadyPlaying { active_session: "a".into() }),
        "a playback session is already active: a"
    );
    assert_eq!(text(ValidationError::NotPlayable), "no playback session is active");
    assert_eq!(
        text(ValidationError::NotResumable),
        "playback is not paused (current state may be Playing or Stopped)"
    );
    assert_eq!(
        text(ValidationError::NotSeekable),
        "playback is not seekable in the current state"
    );
    assert_eq!(
        text(ValidationError::NoInputDeviceSelected),
        "no input device selected and no override given"
    );
    assert_eq!(
        text(ValidationError::NoOutputDeviceSelected),
        "no output device selected and no override given"
    );
    assert_eq!(text(ValidationError::UnknownTake { take_id: "t".into() }), "take not found: t");
    assert_eq!(
        text(ValidationError::SessionNotFound { session_id: "s".into() }),
        "session_not_found: s"
    );
}

#[test]
fn engine_answers_are_checked() {
    assert_eq!(parse_engine_result(None, Some(Ok(4))).unwrap(), 4);
    assert_eq!(parse_engine_result(Some(false), Some(Ok(4))).unwrap(), 4);
    assert_eq!(
        says(parse_engine_result(Some(true), Some(Ok(4))).unwrap_err()),
        (ErrorCode::InvalidRequest, "engine returned tool error".to_string())
    );
    assert_eq!(
        says(parse_engine_result::<u8>(None, None).unwrap_err()),
        (ErrorCode::InternalError, "engine response missing structured_content".to_string())
    );
    assert_eq!(
        says(parse_engine_result::<u8>(None, Some(Err("bad".into()))).unwrap_err()),
        (ErrorCode::InternalError, "engine response decode: bad".to_string())
    );
    assert_eq!(
        says(engine_call_error("closed")),
        (ErrorCode::InternalError, "engine_call_failed: closed".to_string())
    );
}

#[test]
fn small_helpers() {
    assert_eq!(default_direction_output(), Direction::Output);
    assert_eq!(devices_list(&DevicesListArgs { direction: Direction::Input }), "input_list");
    assert_eq!(devices_list(&DevicesListArgs { direction: Direction::Output }), "output_list");
    assert_eq!(take_file_name(1_700_000_000_123), "octave-take-1700000000123.wav");
    assert_eq!(now_unix_seconds(Some(1_999_999_999)), 1_999_999_999);
    assert_eq!(now_unix_seconds(None), 0);
}

#[test]
fn the_fold_copies_left_onto_right() {
    let mut file = b"RIFF....WAVEdata".to_vec();
    file.extend_from_slice(&16u32.to_le_bytes());
    file.extend_from_slice(b"LLLLrrrrMMMMssss");
    let mut expected = file.clone();
    let folded = fold_stereo_to_mono_left(file).unwrap();
    expected.truncate(20);
    expected.extend_from_slice(b"LLLLLLLLMMMMMMMM");
    assert_eq!(folded, expected);
    assert_eq!(fold_stereo_to_mono_left(folded.clone()).unwrap(), folded);

    assert_eq!(fold_stereo_to_mono_left(b"no chunk".to_vec()).unwrap_err(), "no data chunk");
    assert_eq!(fold_stereo_to_mono_left(Vec::new()).unwrap_err(), "no data chunk");
    // A frame that is cut short stays as it is.
    assert_eq!(
        fold_stereo_to_mono_left(b"data....LLLLrrr".to_vec()).unwrap(),
        b"data....LLLLrrr".to_vec()
    );
    assert_eq!(fold_stereo_to_mono_left(b"data".to_vec()).unwrap(), b"data".to_vec());
}

#[test]
fn a_new_take_is_found_until_it_is_deleted() {
    let mut s = AppState::default();
    for i in 0..=MAX_TAKES {
        let id = format!("take-{i}");
        s.apply_record_stopped(Some(fake_take(&id)));
        assert_eq!(s.find_take(&id).unwrap().path, format!("/tmp/{id}.wav"));
    }
    assert!(s.find_take("take-0").is_err(), "the oldest left");
    assert!(s.apply_delete_take("take-3").is_some());
    assert!(s.find_take("take-3").is_err());
    assert!(s.find_take("take-2").is_ok() && s.find_take("take-4").is_ok());
    let revision = s.revision;
    assert!(s.apply_delete_take("take-3").is_none());
    assert_eq!(s.revision, revision);
}
