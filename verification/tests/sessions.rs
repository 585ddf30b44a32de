//! Recording and playback handles, and the actors that own them.
use octave::audio_devices::capabilities::ConfigRange;
use octave::audio_devices::types::{
    BufferSize, DeviceError, DeviceId, InputCapabilities, OutputCapabilities,
};
use octave::mcp::audio_actor::{
    handle_command, load_recording, needed_work, spec_from_args, start_session_as, ActorState,
    Command, Done, Need, PlaybackSessionError, PlaybackStartError, Reply, SessionError,
    StartFailure, StartReplyError, MAX_SESSIONS,
};
use octave::player::file_source::OpenFileError;
use octave::player::handle::{
    load_buffer, load_file, open as open_playback, PlaybackHandle, SeekError, SourceFormat,
    StartError, StopError as PlaybackStopError, TransportError,
};
use octave::player::signals::TransportSignals;
use octave::player::source::PlaybackSource;
use octave::player::telemetry::Telemetry as PlaybackTelemetry;
use octave::player::types::{PlaybackSourceSpec, PlaybackSpec, PlaybackState};
use octave::player::wav::ParseError;
use octave::recorder::error::{ArmError, CancelError, OpenError, RecordError, StopError};
use octave::recorder::handle::{open, CreateFailure, RecordingHandle, WriterEnd};
use octave::recorder::state::RecorderState;
use octave::recorder::telemetry::Telemetry;
use octave::recorder::wav::FinalizedWav;
use octave::recorder::writer::WriterOutcome;
use octave::recorder::RecordingSpec;
use octave::shell::app_actor as shell;
use std::sync::Arc;
use uuid::Uuid;

fn input_caps() -> InputCapabilities {
    InputCapabilities {
        min_sample_rate: 44_100,
        max_sample_rate: 96_000,
        supported_sample_rates: vec![44_100, 48_000, 96_000],
        min_buffer_size: 32,
        max_buffer_size: 1024,
        channels: vec![1, 2],
        default_sample_rate: 48_000,
        default_buffer_size: 256,
    }
}

fn output_caps() -> OutputCapabilities {
    OutputCapabilities {
        min_sample_rate: 44_100,
        max_sample_rate: 96_000,
        supported_sample_rates: vec![44_100, 48_000, 96_000],
        min_buffer_size: 32,
        max_buffer_size: 1024,
        channels: vec![1, 2],
        default_sample_rate: 48_000,
        default_buffer_size: 256,
    }
}

fn configs() -> Vec<ConfigRange> {
    vec![
        ConfigRange {
            channels: 2,
            min_sample_rate: 44_100,
            max_sample_rate: 96_000,
            buffer_size: Some((16, 16)),
            is_f32: false,
        },
        ConfigRange {
            channels: 2,
            min_sample_rate: 44_100,
            max_sample_rate: 48_000,
            buffer_size: Some((64, 512)),
            is_f32: true,
        },
    ]
}

fn spec(sample_rate: u32, channels: u16) -> RecordingSpec {
    spec_from_args("ALSA:mic".to_string(), sample_rate, BufferSize::Default, channels)
}

fn opened() -> RecordingHandle {
    open(spec(48_000, 2), input_caps(), &configs()).unwrap()
}

fn recording() -> RecordingHandle {
    let mut h = opened();
    h.arm(Ok(())).unwrap();
    h.record("/tmp/a.wav", Ok(()), 1_000).unwrap();
    h
}

fn finished(path: &str) -> WriterEnd {
    WriterEnd::Done(WriterOutcome {
        finalized: Some(FinalizedWav {
            frame_count: 48_000,
            bytes_written: 80 + 8 * 48_000,
            promoted_to_rf64: false,
        }),
        path: path.to_string(),
    })
}

fn cancelled(path: &str) -> WriterEnd {
    WriterEnd::Done(WriterOutcome { finalized: None, path: path.to_string() })
}

#[test]
fn a_take_goes_from_idle_to_a_clip() {
    let mut h = opened();
    assert_eq!(h.state(), RecorderState::Idle);
    assert_eq!((h.sample_rate(), h.channels()), (48_000, 2));
    assert_eq!(h.peak_level(0), None);
    h.arm(Ok(())).unwrap();
    assert_eq!(h.state(), RecorderState::Armed);
    assert_eq!(h.peak_level(0), Some(0));
    assert_eq!(h.peak_level(2), None);

    let mut t = Telemetry::new(2);
    t.running_peak = vec![9, 9];
    h.load_telemetry(t);
    h.record("/tmp/a.wav", Ok(()), 1_000).unwrap();
    assert_eq!(h.state(), RecorderState::Recording);

    let mut t = Telemetry::new(2);
    t.peak = vec![1, 2];
    t.running_peak = vec![3, 4];
    t.mean_square = vec![5, 6];
    t.xrun_count = 7;
    t.dropped_samples = 8;
    h.load_telemetry(t);
    assert_eq!((h.peak_level(1), h.mean_square_level(0)), (Some(2), Some(5)));
    assert_eq!((h.xrun_count(), h.dropped_samples()), (7, 8));

    let clip = h.stop_as(finished("/tmp/a.wav"), 42).unwrap();
    assert_eq!((clip.path.as_str(), clip.uuid), ("/tmp/a.wav", 42));
    assert_eq!((clip.sample_rate, clip.channels, clip.frame_count), (48_000, 2, 48_000));
    assert_eq!((clip.started_at, clip.xrun_count, clip.dropped_samples), (1_000, 7, 8));
    assert_eq!(clip.peaks, vec![3, 4]);
    assert_eq!(h.state(), RecorderState::Idle);

    // The ring's reading end is gone: the handle cannot record again.
    h.arm(Ok(())).unwrap();
    assert!(matches!(
        h.record("/tmp/b.wav", Ok(()), 2_000),
        Err(RecordError::NotArmed { current: RecorderState::Armed })
    ));
    assert_eq!(h.close(), RecorderState::Closed);
}

#[test]
fn a_clip_gets_a_random_identifier() {
    let clip = recording().stop(finished("/tmp/a.wav")).unwrap();
    assert_eq!(Uuid::from_u128(clip.uuid).get_version_num(), 4);
}

#[test]
fn formats_that_the_device_lacks_are_refused() {
    for (rate, channels) in [(48_000, 3), (22_050, 2), (192_000, 2), (96_000, 2), (48_000, 1)] {
        match open(spec(rate, channels), input_caps(), &configs()) {
            Err(OpenError::FormatUnsupported { requested, supported }) => {
                assert_eq!((requested.sample_rate, requested.channels), (rate, channels));
                assert_eq!(supported.channels, vec![1, 2]);
            }
            other => panic!("expected FormatUnsupported, got {other:?}"),
        }
    }
}

#[test]
fn recording_steps_out_of_turn_are_refused() {
    let mut h = opened();
    assert!(matches!(
        h.record("/p", Ok(()), 0),
        Err(RecordError::NotArmed { current: RecorderState::Idle })
    ));
    assert!(matches!(
        h.stop(finished("/p")),
        Err(StopError::NotRecording { current: RecorderState::Idle })
    ));
    assert!(matches!(
        h.cancel(cancelled("/p")),
        Err(CancelError::NotRecording { current: RecorderState::Idle })
    ));
    assert!(matches!(
        h.arm(Err("busy".into())),
        Err(ArmError::BuildStreamFailed(m)) if m == "busy"
    ));
    assert!(h.check_arm().is_ok());
    h.arm(Ok(())).unwrap();
    assert!(matches!(h.arm(Ok(())), Err(ArmError::NotIdle { current: RecorderState::Armed })));
    assert!(matches!(
        h.record("/p", Err(CreateFailure::PermissionDenied), 0),
        Err(RecordError::PermissionDenied(p)) if p == "/p"
    ));
    assert!(matches!(
        h.record("/p", Err(CreateFailure::StorageFull), 0),
        Err(RecordError::DiskFull)
    ));
    assert!(matches!(
        h.record("/p", Err(CreateFailure::Other), 0),
        Err(RecordError::OutputPathInvalid(p)) if p == "/p"
    ));
    assert_eq!(h.state(), RecorderState::Armed);
}

#[test]
fn a_writer_that_failed_leaves_no_clip() {
    for (end, text) in [
        (WriterEnd::Panicked, "writer thread panicked"),
        (WriterEnd::Failed("disk gone".into()), "disk gone"),
        (cancelled("/p"), "writer returned no clip"),
    ] {
        let mut h = recording();
        match h.stop(end) {
            Err(StopError::FinalizeFailed(m)) => assert_eq!(m, text),
            other => panic!("expected FinalizeFailed, got {other:?}"),
        }
        assert_eq!(h.state(), RecorderState::Stopping);
    }
}

#[test]
fn a_cancel_deletes_what_was_not_finalized() {
    let mut h = recording();
    assert_eq!(h.cancel(cancelled("/p")).unwrap().as_deref(), Some("/p"));
    assert_eq!(h.state(), RecorderState::Idle);
    assert_eq!(recording().cancel(finished("/p")).unwrap(), None);
    assert_eq!(recording().cancel(WriterEnd::Panicked).unwrap(), None);
    assert_eq!(recording().cancel(WriterEnd::Failed("x".into())).unwrap(), None);
}

#[test]
fn recorder_errors_have_their_texts() {
    assert_eq!(
        OpenError::DeviceNotFound { id: DeviceId("a\"b".into()) }.message(),
        "device not found: DeviceId(\"a\\\"b\")"
    );
    assert_eq!(OpenError::BackendError("x".into()).message(), "backend error: x");
    assert_eq!(OpenError::PermissionDenied.message(), "permission denied");
    assert_eq!(
        open(spec(1, 1), input_caps(), &configs()).unwrap_err().message(),
        "requested format unsupported by device"
    );
    assert_eq!(
        ArmError::NotIdle { current: RecorderState::Errored }.message(),
        "not idle (current: Errored)"
    );
    assert_eq!(
        ArmError::BuildStreamFailed("x".into()).message(),
        "build_input_stream failed: x"
    );
    assert_eq!(
        RecordError::NotArmed { current: RecorderState::Opening }.message(),
        "not armed (current: Opening)"
    );
    assert_eq!(RecordError::OutputPathInvalid("/p".into()).message(), "output path invalid: /p");
    assert_eq!(RecordError::PermissionDenied("/p".into()).message(), "permission denied: /p");
    assert_eq!(RecordError::DiskFull.message(), "disk full");
    assert_eq!(
        StopError::NotRecording { current: RecorderState::Closed }.message(),
        "not recording (current: Closed)"
    );
    assert_eq!(StopError::FinalizeFailed("x".into()).message(), "finalize failed: x");
    assert_eq!(
        CancelError::NotRecording { current: RecorderState::Idle }.message(),
        "not recording (current: Idle)"
    );
    assert_eq!(DeviceError::BackendError("x".into()).message(), "backend error: x");
    assert_eq!(
        DeviceError::DeviceNotFound { id: DeviceId("a".into()) }.message(),
        "device not found: DeviceId(\"a\")"
    );
}

fn source(sample_rate: u32, channels: u16) -> SourceFormat {
    SourceFormat { sample_rate, channels, duration_frames: Some(96_000) }
}

fn playing() -> PlaybackHandle {
    open_playback(source(48_000, 2), BufferSize::Default, output_caps(), &configs()).unwrap()
}

#[test]
fn a_source_that_the_device_cannot_play_is_refused() {
    let open = |rate, channels, buffer| {
        open_playback(source(rate, channels), buffer, output_caps(), &configs())
    };
    let e = open(22_050, 2, BufferSize::Default).unwrap_err();
    assert_eq!(e.message(), "device does not support 22050 Hz; supported: [44100, 48000, 96000]");
    let e = open(48_000, 6, BufferSize::Default).unwrap_err();
    assert_eq!(e.message(), "device does not support 6 channels; supported: [1, 2]");
    let e = open(96_000, 2, BufferSize::Default).unwrap_err();
    assert_eq!(e.message(), "file format mismatch — source 96000 Hz, device 48000 Hz");
    let e = open(48_000, 2, BufferSize::Fixed(32)).unwrap_err();
    assert_eq!(e.message(), "buffer size 32 out of range [64, 512]");
    assert!(open(48_000, 2, BufferSize::Fixed(64)).is_ok());
    assert!(open(44_100, 2, BufferSize::Fixed(512)).is_ok());
    assert_eq!(
        StartError::ChannelMismatch { source_channels: 1, device_channels: 2 }.message(),
        "channel mismatch — source 1 ch, device 2 ch"
    );
    assert_eq!(
        StartError::from(DeviceError::DeviceNotFound { id: DeviceId("x".into()) }).message(),
        "device not found: DeviceId(\"x\")"
    );
    assert_eq!(
        StartError::from(DeviceError::BackendError("x".into())).message(),
        "backend error: x"
    );
    assert_eq!(
        StartError::BuildStreamFailed("x".into()).message(),
        "failed to build cpal output stream: x"
    );
    assert_eq!(
        StartError::PlayStreamFailed("x".into()).message(),
        "failed to start cpal output stream: x"
    );
}

#[test]
fn sources_are_loaded_before_the_device_is_asked() {
    let samples: Arc<[u32]> = vec![1, 2, 3, 4].into();
    let (s, format) = load_buffer(Arc::clone(&samples), 48_000, 2).unwrap();
    assert_eq!(s.channels(), 2);
    assert_eq!(
        format,
        SourceFormat { sample_rate: 48_000, channels: 2, duration_frames: Some(2) }
    );
    for channels in [0, 3] {
        let e = load_buffer(Arc::clone(&samples), 48_000, channels).err().unwrap();
        assert_eq!(
            e.message(),
            "source unreadable: buffer source: samples.len() must be a whole multiple of channels and channels > 0"
        );
    }
    let e = load_file(Err(OpenFileError::Parse(ParseError::NotWav("x".into())))).unwrap_err();
    assert_eq!(e.message(), "source unreadable: not a usable WAV: not a WAVE file: x");
}

#[test]
fn playback_goes_through_its_states() {
    let mut h = playing();
    assert_eq!(h.state(), PlaybackState::Playing);
    assert_eq!((h.sample_rate(), h.channels(), h.position_frames()), (48_000, 2, 0));
    assert!(matches!(
        h.resume(Ok(())),
        Err(TransportError::NotPaused { current: PlaybackState::Playing })
    ));
    assert_eq!(h.pause(Err("no".into())), Err(TransportError::BackendFailed("no".into())));
    h.pause(Ok(())).unwrap();
    assert_eq!(h.state(), PlaybackState::Paused);
    assert_eq!(
        h.pause(Ok(())),
        Err(TransportError::NotPlaying { current: PlaybackState::Paused })
    );
    assert_eq!(
        h.seek(96_001),
        Err(SeekError::OutOfBounds { requested: 96_001, max: 96_000 })
    );
    let mut t = PlaybackTelemetry::new(2);
    t.peak = vec![1, 2];
    t.mean_square = vec![3, 4];
    t.running_peak = vec![5, 6];
    t.position_frames = 77;
    t.xrun_count = 3;
    h.load(t, TransportSignals::new());
    h.seek(96_000).unwrap();
    assert!(h.signals().seek_pending);
    assert_eq!(h.signals().seek_target, 96_000);
    assert_eq!((h.peak_level(0), h.peak_level(2), h.mean_square_level(1)), (Some(1), None, Some(4)));
    let l = h.levels();
    assert_eq!((l.peaks, l.mean_squares), (vec![1, 2], vec![3, 4]));
    h.resume(Ok(())).unwrap();

    let mut signals = TransportSignals::new();
    signals.playback_complete = true;
    let mut t = PlaybackTelemetry::new(2);
    t.position_frames = 96_000;
    t.xrun_count = 1;
    h.load(t, signals);
    assert_eq!(h.state(), PlaybackState::Ended);
    let s = h.status();
    assert_eq!((s.state, s.position_frames, s.xrun_count), (PlaybackState::Ended, 96_000, 1));
    assert_eq!((s.duration_frames, s.sample_rate, s.channels), (Some(96_000), 48_000, 2));
    h.seek(5).unwrap();

    let s = h.stop().unwrap();
    assert_eq!(s.state, PlaybackState::Stopped);
    assert!(h.signals().stop_request);
    assert_eq!(
        h.seek(5),
        Err(SeekError::NotSeekable { current: PlaybackState::Stopped })
    );
    assert!(h.close().stop_request);
}

#[test]
fn playback_errors_have_their_texts() {
    assert_eq!(
        TransportError::NotPlaying { current: PlaybackState::Ended }.message(),
        "not playing (current state: Ended)"
    );
    assert_eq!(
        TransportError::NotPaused { current: PlaybackState::Loading }.message(),
        "not paused (current state: Loading)"
    );
    assert_eq!(
        TransportError::BackendFailed("x".into()).message(),
        "backend pause/play failed: x"
    );
    assert_eq!(
        SeekError::NotSeekable { current: PlaybackState::Errored }.message(),
        "not seekable (current state: Errored)"
    );
    assert_eq!(
        SeekError::OutOfBounds { requested: 9, max: 4 }.message(),
        "seek out of bounds: requested frame 9, source has 4 frames"
    );
    assert_eq!(
        PlaybackStopError::NotActive { current: PlaybackState::Closed }.message(),
        "not active (current state: Closed)"
    );
    assert_eq!(
        octave::player::source::SeekError::OutOfBounds { requested: 9, max: 4 }.message(),
        "seek out of bounds: requested 9, max 4"
    );
    assert_eq!(
        octave::player::source::SeekError::NotSeekable.message(),
        "source is not seekable"
    );
    assert_eq!(
        octave::player::source::SeekError::Io("x".into()).message(),
        "source seek failed: x"
    );
}

fn start() -> Command {
    Command::StartRecording { spec: spec(48_000, 2), output_path: "/tmp/a.wav".into() }
}

fn started(state: &mut ActorState, now: u64) -> u128 {
    assert_eq!(needed_work(state, &start()), Need::StartInput);
    match handle_command(start(), state, Done::InputStarted(Ok(recording())), now) {
        Reply::StartRecording(Ok(r)) => {
            assert_eq!(r.started_at, now);
            r.session_id
        }
        other => panic!("expected a start, got {other:?}"),
    }
}

#[test]
fn the_actor_runs_recordings_side_by_side_up_to_its_limit() {
    let mut state = ActorState::new();
    let mut ids = Vec::new();
    for i in 0..MAX_SESSIONS {
        ids.push(started(&mut state, i as u64));
    }
    assert_eq!(state.recording.len(), 8);
    assert_eq!(needed_work(&state, &start()), Need::Nothing);
    assert!(matches!(
        handle_command(start(), &mut state, Done::Nothing, 0),
        Reply::StartRecording(Err(StartReplyError::TooManySessions))
    ));

    let stop = || Command::Stop { session_id: ids[0] };
    assert_eq!(needed_work(&state, &stop()), Need::StopWriter);
    match handle_command(stop(), &mut state, Done::WriterEnded(finished("/tmp/a.wav")), 0) {
        Reply::Stop(Ok(clip)) => {
            assert_eq!(clip.frame_count, 48_000);
            assert_eq!(clip.path, "/tmp/a.wav");
            assert_eq!((clip.sample_rate, clip.channels), (48_000, 2));
            let text = clip.clip_uuid.as_bytes();
            assert_eq!(text.len(), 36);
            assert_eq!((text[8], text[14], text[23]), (b'-', b'4', b'-'));
        }
        other => panic!("expected a clip, got {other:?}"),
    }
    assert_eq!(needed_work(&state, &stop()), Need::Nothing);
    match handle_command(stop(), &mut state, Done::Nothing, 0) {
        Reply::Stop(Err(SessionError::NotFound(id))) => assert_eq!(id, ids[0]),
        other => panic!("expected NotFound, got {other:?}"),
    }

    let cancel = Command::Cancel { session_id: ids[1] };
    assert_eq!(needed_work(&state, &cancel), Need::CancelWriter);
    match handle_command(cancel, &mut state, Done::WriterEnded(cancelled("/tmp/a.wav")), 0) {
        Reply::Cancel(Ok(r)) => {
            assert_eq!(r.path, "/tmp/a.wav");
            assert_eq!(r.delete.as_deref(), Some("/tmp/a.wav"));
        }
        other => panic!("expected a cancel, got {other:?}"),
    }

    let mut t = Telemetry::new(2);
    t.peak = vec![1, 2];
    t.mean_square = vec![3, 4];
    t.xrun_count = 5;
    t.dropped_samples = 6;
    assert!(load_recording(&mut state, ids[2], t));
    assert!(!load_recording(&mut state, ids[0], Telemetry::new(2)));
    assert!(!load_recording(&mut state, ids[2], Telemetry::new(1)));
    let levels = Command::GetLevels { session_id: ids[2] };
    assert_eq!(needed_work(&state, &levels), Need::Nothing);
    match handle_command(levels, &mut state, Done::Nothing, 0) {
        Reply::Levels(Ok(l)) => {
            assert_eq!(l.peaks, vec![Some(1), Some(2)]);
            assert_eq!(l.mean_squares, vec![Some(3), Some(4)]);
        }
        other => panic!("expected levels, got {other:?}"),
    }
    match handle_command(Command::GetStatus { session_id: ids[2] }, &mut state, Done::Nothing, 42) {
        Reply::Status(Ok(s)) => {
            assert_eq!(s.state, RecorderState::Recording);
            assert_eq!((s.xrun_count, s.dropped_samples, s.elapsed_nanos), (5, 6, 40));
        }
        other => panic!("expected a status, got {other:?}"),
    }
    // A clock that went back counts as no time.
    match handle_command(Command::GetStatus { session_id: ids[2] }, &mut state, Done::Nothing, 0) {
        Reply::Status(Ok(s)) => assert_eq!(s.elapsed_nanos, 0),
        other => panic!("expected a status, got {other:?}"),
    }
}

#[test]
fn the_actor_tells_where_a_start_failed() {
    let mut state = ActorState::new();
    for (failure, text) in [
        (
            StartFailure::Open(OpenError::DeviceNotFound { id: DeviceId("x".into()) }),
            "OpenError::DeviceNotFound(x)",
        ),
        (StartFailure::Open(OpenError::BackendError("b".into())), "OpenError::BackendError(b)"),
        (StartFailure::Open(OpenError::PermissionDenied), "OpenError::PermissionDenied"),
        (
            StartFailure::Arm(ArmError::NotIdle { current: RecorderState::Armed }),
            "ArmError::NotIdle { Armed }",
        ),
        (
            StartFailure::Arm(ArmError::BuildStreamFailed("m".into())),
            "ArmError::BuildStreamFailed(m)",
        ),
        (
            StartFailure::Record(RecordError::NotArmed { current: RecorderState::Idle }),
            "RecordError::NotArmed { Idle }",
        ),
        (
            StartFailure::Record(RecordError::OutputPathInvalid("/p".into())),
            "RecordError::OutputPathInvalid(/p)",
        ),
        (
            StartFailure::Record(RecordError::PermissionDenied("/p".into())),
            "RecordError::PermissionDenied(/p)",
        ),
        (StartFailure::Record(RecordError::DiskFull), "RecordError::DiskFull"),
    ] {
        match handle_command(start(), &mut state, Done::InputStarted(Err(failure)), 0) {
            Reply::StartRecording(Err(e)) => assert_eq!(e.message(), text),
            other => panic!("expected an error, got {other:?}"),
        }
    }
    assert!(state.recording.is_empty());
    assert_eq!(StartReplyError::TooManySessions.message(), "session limit reached (8)");
    let r = start_session_as(&mut state, spec(48_000, 2), "/p".into(), Ok(recording()), 9, 3);
    assert_eq!(r.unwrap().session_id, 9);
    match handle_command(
        Command::Stop { session_id: 9 },
        &mut state,
        Done::WriterEnded(WriterEnd::Failed("io".into())),
        0,
    ) {
        Reply::Stop(Err(e)) => assert_eq!(e.message(), "StopError::FinalizeFailed(io)"),
        other => panic!("expected an error, got {other:?}"),
    }
    assert!(state.recording.is_empty());
}

fn play() -> Command {
    Command::PlaybackStart {
        spec: PlaybackSpec {
            device_id: DeviceId("ALSA:out".into()),
            source: PlaybackSourceSpec::File { path: "/tmp/a.wav".into() },
            buffer_size: BufferSize::Default,
        },
    }
}

#[test]
fn the_actor_plays_one_source_at_a_time() {
    let mut state = ActorState::new();
    assert_eq!(needed_work(&state, &play()), Need::StartOutput);
    match handle_command(
        play(),
        &mut state,
        Done::OutputStarted(Err(StartError::BackendError("x".into()))),
        0,
    ) {
        Reply::PlaybackStart(Err(e)) => assert_eq!(e.message(), "StartError::backend error: x"),
        other => panic!("expected an error, got {other:?}"),
    }
    let id = match handle_command(play(), &mut state, Done::OutputStarted(Ok(playing())), 7) {
        Reply::PlaybackStart(Ok(r)) => {
            assert_eq!((r.started_at, r.duration_frames), (7, Some(96_000)));
            assert_eq!((r.sample_rate, r.channels), (48_000, 2));
            r.session_id
        }
        other => panic!("expected a start, got {other:?}"),
    };
    assert_eq!(needed_work(&state, &play()), Need::Nothing);
    match handle_command(play(), &mut state, Done::Nothing, 0) {
        Reply::PlaybackStart(Err(PlaybackStartError::AlreadyPlaying { current_session })) => {
            assert_eq!(current_session, id);
        }
        other => panic!("expected AlreadyPlaying, got {other:?}"),
    }

    let other_id = id ^ 1;
    let pause = |session_id| Command::PlaybackPause { session_id };
    assert_eq!(needed_work(&state, &pause(other_id)), Need::Nothing);
    assert!(matches!(
        handle_command(pause(other_id), &mut state, Done::Nothing, 0),
        Reply::Transport(Err(PlaybackSessionError::NotFound(x))) if x == other_id
    ));
    assert_eq!(needed_work(&state, &pause(id)), Need::PauseStream);
    match handle_command(pause(id), &mut state, Done::Stream(Err("no".into())), 0) {
        Reply::Transport(Err(e)) => {
            assert_eq!(e.message(), "transport: backend pause/play failed: no");
        }
        other => panic!("expected an error, got {other:?}"),
    }
    match handle_command(pause(id), &mut state, Done::Stream(Ok(())), 0) {
        Reply::Transport(Ok(t)) => assert_eq!(t.state, PlaybackState::Paused),
        other => panic!("expected a pause, got {other:?}"),
    }
    let resume = Command::PlaybackResume { session_id: id };
    assert_eq!(needed_work(&state, &resume), Need::ResumeStream);
    match handle_command(resume, &mut state, Done::Stream(Ok(())), 0) {
        Reply::Transport(Ok(t)) => assert_eq!(t.state, PlaybackState::Playing),
        other => panic!("expected a resume, got {other:?}"),
    }
    let seek = |f| Command::PlaybackSeek { session_id: id, target_frames: f };
    assert!(matches!(
        handle_command(seek(5), &mut state, Done::Nothing, 0),
        Reply::Seek(Ok(5))
    ));
    match handle_command(seek(96_001), &mut state, Done::Nothing, 0) {
        Reply::Seek(Err(e)) => assert_eq!(
            e.message(),
            "seek: seek out of bounds: requested frame 96001, source has 96000 frames"
        ),
        other => panic!("expected an error, got {other:?}"),
    }
    match handle_command(
        Command::PlaybackGetStatus { session_id: id },
        &mut state,
        Done::Nothing,
        0,
    ) {
        Reply::PlaybackStatus(Ok(s)) => assert_eq!(s.duration_frames, Some(96_000)),
        other => panic!("expected a status, got {other:?}"),
    }
    match handle_command(
        Command::PlaybackGetLevels { session_id: id },
        &mut state,
        Done::Nothing,
        0,
    ) {
        Reply::PlaybackLevels(Ok(l)) => assert_eq!(l.peaks, vec![0, 0]),
        other => panic!("expected levels, got {other:?}"),
    }
    let stop = |session_id| Command::PlaybackStop { session_id };
    // A stop of another session answers with the one that plays.
    assert!(matches!(
        handle_command(stop(other_id), &mut state, Done::Nothing, 0),
        Reply::PlaybackStop(Err(PlaybackSessionError::NotFound(x))) if x == id
    ));
    match handle_command(stop(id), &mut state, Done::Nothing, 0) {
        Reply::PlaybackStop(Ok(s)) => assert_eq!(s.state, PlaybackState::Stopped),
        other => panic!("expected a stop, got {other:?}"),
    }
    assert!(state.playback.is_none());
    assert!(matches!(
        handle_command(stop(id), &mut state, Done::Nothing, 0),
        Reply::PlaybackStop(Err(PlaybackSessionError::NotFound(x))) if x == id
    ));
}

#[test]
fn the_shell_plays_and_records_one_session_each() {
    let mut state = shell::ActorState::new();
    let start = || shell::Command::Start {
        spec: PlaybackSpec {
            device_id: DeviceId("ALSA:out".into()),
            source: PlaybackSourceSpec::File { path: "/tmp/a.wav".into() },
            buffer_size: BufferSize::Default,
        },
    };
    assert!(matches!(
        shell::handle_command(shell::Command::Status, &mut state, shell::Done::Nothing, 0),
        shell::Reply::Status(None)
    ));
    assert_eq!(shell::needed_work(&state, &start()), shell::Need::StartOutput);
    match shell::handle_command(start(), &mut state, shell::Done::OutputStarted(Ok(playing())), 0) {
        shell::Reply::Start(Ok(r)) => {
            assert_eq!((r.duration_frames, r.sample_rate, r.channels), (Some(96_000), 48_000, 2));
        }
        other => panic!("expected a start, got {other:?}"),
    }
    match shell::handle_command(start(), &mut state, shell::Done::Nothing, 0) {
        shell::Reply::Start(Err(e)) => {
            assert_eq!(e.message(), "a playback session is already active — stop it first");
        }
        other => panic!("expected an error, got {other:?}"),
    }
    assert_eq!(shell::needed_work(&state, &shell::Command::Pause), shell::Need::PauseStream);
    match shell::handle_command(
        shell::Command::Pause,
        &mut state,
        shell::Done::Stream(Ok(())),
        0,
    ) {
        shell::Reply::Transport(Ok(s)) => assert_eq!(s.state, PlaybackState::Paused),
        other => panic!("expected a pause, got {other:?}"),
    }
    match shell::handle_command(shell::Command::Pause, &mut state, shell::Done::Nothing, 0) {
        shell::Reply::Transport(Err(e)) => {
            assert_eq!(e.message(), "TransportError::not playing (current state: Paused)");
        }
        other => panic!("expected an error, got {other:?}"),
    }
    match shell::handle_command(shell::Command::Stop, &mut state, shell::Done::Nothing, 0) {
        shell::Reply::Stop(Ok(s)) => assert_eq!(s.state, PlaybackState::Stopped),
        other => panic!("expected a stop, got {other:?}"),
    }
    match shell::handle_command(shell::Command::Stop, &mut state, shell::Done::Nothing, 0) {
        shell::Reply::Stop(Err(e)) => assert_eq!(e.message(), "nothing is currently playing"),
        other => panic!("expected an error, got {other:?}"),
    }

    let record = || shell::Command::StartRecording {
        spec: spec(48_000, 2),
        output_path: "/tmp/a.wav".into(),
        fold_to_mono: true,
    };
    match shell::handle_command(
        record(),
        &mut state,
        shell::Done::InputStarted(Err(StartFailure::Record(RecordError::DiskFull))),
        0,
    ) {
        shell::Reply::StartRecording(Err(e)) => {
            assert_eq!(e.message(), "RecordError::disk full");
        }
        other => panic!("expected an error, got {other:?}"),
    }
    match shell::handle_command(
        record(),
        &mut state,
        shell::Done::InputStarted(Ok(recording())),
        100,
    ) {
        shell::Reply::StartRecording(Ok(r)) => {
            assert_eq!((r.output_path.as_str(), r.sample_rate, r.channels), ("/tmp/a.wav", 48_000, 2));
        }
        other => panic!("expected a start, got {other:?}"),
    }
    match shell::handle_command(record(), &mut state, shell::Done::Nothing, 0) {
        shell::Reply::StartRecording(Err(e)) => {
            assert_eq!(e.message(), "a recording session is already active — stop it first");
        }
        other => panic!("expected an error, got {other:?}"),
    }
    match shell::handle_command(
        shell::Command::RecordingStatus,
        &mut state,
        shell::Done::Nothing,
        150,
    ) {
        shell::Reply::RecordingStatus(Some(s)) => {
            assert_eq!((s.state, s.elapsed_nanos, s.xrun_count), (RecorderState::Recording, 50, 0));
        }
        other => panic!("expected a status, got {other:?}"),
    }
    match shell::handle_command(
        shell::Command::StopRecording,
        &mut state,
        shell::Done::WriterEnded(finished("/tmp/a.wav")),
        0,
    ) {
        shell::Reply::StopRecording(Ok(r)) => {
            assert_eq!(r.clip.frame_count, 48_000);
            assert!(r.fold_to_mono);
        }
        other => panic!("expected a clip, got {other:?}"),
    }
    match shell::handle_command(shell::Command::StopRecording, &mut state, shell::Done::Nothing, 0)
    {
        shell::Reply::StopRecording(Err(e)) => {
            assert_eq!(e.message(), "nothing is currently recording");
        }
        other => panic!("expected an error, got {other:?}"),
    }
    assert_eq!(shell::ActorError::Gone.message(), "audio thread is gone");
    assert_eq!(shell::ActorError::QueueFull.message(), "audio command queue is full");
}

#[test]
fn a_clip_tells_when_its_session_started() {
    let mut state = ActorState::new();
    let id = started(&mut state, 7_900_000_000);
    let stop = Command::Stop { session_id: id };
    match handle_command(stop, &mut state, Done::WriterEnded(finished("/tmp/a.wav")), 9) {
        Reply::Stop(Ok(clip)) => assert_eq!(clip.started_at_unix_seconds, 7),
        other => panic!("expected a clip, got {other:?}"),
    }
    assert!(state.recording.is_empty());
}

#[test]
fn recordings_and_the_playback_do_not_touch_each_other() {
    let mut state = ActorState::new();
    let a = started(&mut state, 1);
    let b = started(&mut state, 2);
    let p = match handle_command(play(), &mut state, Done::OutputStarted(Ok(playing())), 3) {
        Reply::PlaybackStart(Ok(r)) => r.session_id,
        other => panic!("expected a start, got {other:?}"),
    };
    let stop = Command::Stop { session_id: a };
    let _ = handle_command(stop, &mut state, Done::WriterEnded(finished("/tmp/a.wav")), 4);
    assert!(!state.recording.contains_key(&a));
    assert_eq!(state.recording[&b].started_at, 2);
    assert_eq!(state.playback.as_ref().unwrap().session_id, p);

    // Refused: the session is gone, and the playback's identifier is no recording's.
    for id in [a, p] {
        let again = Command::Cancel { session_id: id };
        assert_eq!(needed_work(&state, &again), Need::Nothing);
        assert!(matches!(
            handle_command(again, &mut state, Done::Nothing, 5),
            Reply::Cancel(Err(SessionError::NotFound(x))) if x == id
        ));
    }
    let halt = Command::PlaybackStop { session_id: p };
    let _ = handle_command(halt, &mut state, Done::Nothing, 6);
    assert!(state.playback.is_none());
    assert_eq!(state.recording.len(), 1);
}

#[test]
fn a_stop_can_be_repeated() {
    let mut h = playing();
    let first = h.stop().unwrap();
    assert_eq!(first.state, PlaybackState::Stopped);
    assert!(h.signals().stop_request);
    assert_eq!(h.stop().unwrap(), first);
    assert_eq!(h.state(), PlaybackState::Stopped);

    let mut h = playing();
    h.pause(Ok(())).unwrap();
    assert_eq!(h.stop().unwrap().state, PlaybackState::Stopped);
    assert_eq!(h.stop().unwrap().state, PlaybackState::Stopped);
}
