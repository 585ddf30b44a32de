//! The playback handle: which operation is allowed when, and what it leads to.
//!
//! The stream and the reader thread belong to whoever drives the handle. It hands
//! in what they answered; an operation that the state does not allow is refused
//! whatever they answered, and can be asked for beforehand.
use super::file_source::{FileSource, OpenFileError};
use super::signals::TransportSignals;
use super::source::{BufferSource, PlaybackSource};
use super::telemetry::Telemetry;
use super::types::{PlaybackLevels, PlaybackState, PlaybackStatus};
use crate::audio_devices::capabilities::ConfigRange;
use crate::audio_devices::types::{BufferSize, DeviceError, DeviceId, OutputCapabilities};
use crate::recorder::handle::{f32_config, first_f32_config, has_channels};
use crate::text::{
    bracketed, debug_quoted, decimal, push_decimal, push_u16_list, push_u32_list, quoted,
    u16_items, u32_items, with_decimal,
};
use std::sync::Arc;
use vstd::prelude::*;
use vstd::string::*;

verus! {

/// Why playback could not start.
#[derive(Debug)]
pub enum StartError {
    DeviceNotFound(DeviceId),
    BackendError(String),
    SourceUnreadable(String),
    RateMismatch { source_rate: u32, device_rate: u32 },
    ChannelMismatch { source_channels: u16, device_channels: u16 },
    RateUnsupportedByDevice { requested: u32, supported: Vec<u32> },
    ChannelsUnsupportedByDevice { requested: u16, supported: Vec<u16> },
    BufferSizeOutOfRange { requested: u32, min: u32, max: u32 },
    BuildStreamFailed(String),
    PlayStreamFailed(String),
}

impl StartError {
    /// The text of the error.
    pub open spec fn text(&self) -> Seq<char> {
        match self {
            StartError::DeviceNotFound(id) => "device not found: DeviceId("@ + debug_quoted(id@)
                + ")"@,
            StartError::BackendError(m) => "backend error: "@ + m@,
            StartError::SourceUnreadable(m) => "source unreadable: "@ + m@,
            StartError::RateMismatch { source_rate, device_rate } =>
                "file format mismatch — source "@ + decimal(*source_rate as nat) + " Hz, device "@
                    + decimal(*device_rate as nat) + " Hz"@,
            StartError::ChannelMismatch { source_channels, device_channels } =>
                "channel mismatch — source "@ + decimal(*source_channels as nat) + " ch, device "@
                    + decimal(*device_channels as nat) + " ch"@,
            StartError::RateUnsupportedByDevice { requested, supported } =>
                "device does not support "@ + decimal(*requested as nat) + " Hz; supported: "@
                    + bracketed(u32_items(supported@)),
            StartError::ChannelsUnsupportedByDevice { requested, supported } =>
                "device does not support "@ + decimal(*requested as nat) + " channels; supported: "@
                    + bracketed(u16_items(supported@)),
            StartError::BufferSizeOutOfRange { requested, min, max } => "buffer size "@ + decimal(
                *requested as nat,
            ) + " out of range ["@ + decimal(*min as nat) + ", "@ + decimal(*max as nat) + "]"@,
            StartError::BuildStreamFailed(m) => "failed to build cpal output stream: "@ + m@,
            StartError::PlayStreamFailed(m) => "failed to start cpal output stream: "@ + m@,
        }
    }

    /// The text of the error.
    pub fn message(&self) -> (r: String)
        ensures
            r@ == self.text(),
    {
        match self {
            StartError::DeviceNotFound(id) => {
                let mut s: String = "device not found: DeviceId(".to_owned();
                let q: String = quoted(id.0.as_str());
                s.append(q.as_str());
                s.append(")");
                s
            },
            StartError::BackendError(m) => "backend error: ".to_owned().concat(m.as_str()),
            StartError::SourceUnreadable(m) => "source unreadable: ".to_owned().concat(m.as_str()),
            StartError::RateMismatch { source_rate, device_rate } => {
                let mut s: String = with_decimal(
                    "file format mismatch — source ",
                    *source_rate as u64,
                );
                s.append(" Hz, device ");
                push_decimal(&mut s, *device_rate as u64);
                s.append(" Hz");
                s
            },
            StartError::ChannelMismatch { source_channels, device_channels } => {
                let mut s: String = with_decimal(
                    "channel mismatch — source ",
                    *source_channels as u64,
                );
                s.append(" ch, device ");
                push_decimal(&mut s, *device_channels as u64);
                s.append(" ch");
                s
            },
            StartError::RateUnsupportedByDevice { requested, supported } => {
                let mut s: String = with_decimal("device does not support ", *requested as u64);
                s.append(" Hz; supported: ");
                push_u32_list(&mut s, supported.as_slice());
                s
            },
            StartError::ChannelsUnsupportedByDevice { requested, supported } => {
                let mut s: String = with_decimal("device does not support ", *requested as u64);
                s.append(" channels; supported: ");
                push_u16_list(&mut s, supported.as_slice());
                s
            },
            StartError::BufferSizeOutOfRange { requested, min, max } => {
                let mut s: String = with_decimal("buffer size ", *requested as u64);
                s.append(" out of range [");
                push_decimal(&mut s, *min as u64);
                s.append(", ");
                push_decimal(&mut s, *max as u64);
                s.append("]");
                s
            },
            StartError::BuildStreamFailed(m) => "failed to build cpal output stream: ".to_owned().concat(
                m.as_str(),
            ),
            StartError::PlayStreamFailed(m) => "failed to start cpal output stream: ".to_owned().concat(
                m.as_str(),
            ),
        }
    }
}

impl From<DeviceError> for StartError {
    fn from(e: DeviceError) -> (r: StartError) {
        match e {
            DeviceError::DeviceNotFound { id } => StartError::DeviceNotFound(id),
            DeviceError::BackendError(s) => StartError::BackendError(s),
        }
    }
}

impl vstd::std_specs::convert::FromSpecImpl<DeviceError> for StartError {
    open spec fn obeys_from_spec() -> bool {
        true
    }

    open spec fn from_spec(e: DeviceError) -> StartError {
        match e {
            DeviceError::DeviceNotFound { id } => StartError::DeviceNotFound(id),
            DeviceError::BackendError(s) => StartError::BackendError(s),
        }
    }
}

/// The start error of a source file that could not be opened.
pub fn source_unreadable(e: &OpenFileError) -> (r: StartError)
    ensures
        r matches StartError::SourceUnreadable(m) && m@ == e.text(),
{
    StartError::SourceUnreadable(e.message())
}

/// Why playback could not be stopped.
#[derive(Debug, PartialEq, Eq)]
pub enum StopError {
    NotActive { current: PlaybackState },
}

impl StopError {
    /// The text of the error.
    pub open spec fn text(&self) -> Seq<char> {
        match self {
            StopError::NotActive { current } => "not active (current state: "@ + current.text()
                + ")"@,
        }
    }

    /// The text of the error.
    pub fn message(&self) -> (r: String)
        ensures
            r@ == self.text(),
    {
        match self {
            StopError::NotActive { current } => with_state(
                "not active (current state: ",
                *current,
            ),
        }
    }
}

/// Why playback could not be paused or resumed.
#[derive(Debug, PartialEq, Eq)]
pub enum TransportError {
    NotPlaying { current: PlaybackState },
    NotPaused { current: PlaybackState },
    BackendFailed(String),
}

impl TransportError {
    /// The text of the error.
    pub open spec fn text(&self) -> Seq<char> {
        match self {
            TransportError::NotPlaying { current } => "not playing (current state: "@
                + current.text() + ")"@,
            TransportError::NotPaused { current } => "not paused (current state: "@ + current.text()
                + ")"@,
            TransportError::BackendFailed(m) => "backend pause/play failed: "@ + m@,
        }
    }

    /// The text of the error.
    pub fn message(&self) -> (r: String)
        ensures
            r@ == self.text(),
    {
        match self {
            TransportError::NotPlaying { current } => with_state(
                "not playing (current state: ",
                *current,
            ),
            TransportError::NotPaused { current } => with_state(
                "not paused (current state: ",
                *current,
            ),
            TransportError::BackendFailed(m) => "backend pause/play failed: ".to_owned().concat(
                m.as_str(),
            ),
        }
    }
}

/// Why playback could not seek.
#[derive(Debug, PartialEq, Eq)]
pub enum SeekError {
    NotSeekable { current: PlaybackState },
    OutOfBounds { requested: u64, max: u64 },
}

impl SeekError {
    /// The text of the error.
    pub open spec fn text(&self) -> Seq<char> {
        match self {
            SeekError::NotSeekable { current } => "not seekable (current state: "@ + current.text()
                + ")"@,
            SeekError::OutOfBounds { requested, max } => "seek out of bounds: requested frame "@
                + decimal(*requested as nat) + ", source has "@ + decimal(*max as nat)
                + " frames"@,
        }
    }

    /// The text of the error.
    pub fn message(&self) -> (r: String)
        ensures
            r@ == self.text(),
    {
        match self {
            SeekError::NotSeekable { current } => with_state(
                "not seekable (current state: ",
                *current,
            ),
            SeekError::OutOfBounds { requested, max } => {
                let mut s: String = with_decimal("seek out of bounds: requested frame ", *requested);
                s.append(", source has ");
                push_decimal(&mut s, *max);
                s.append(" frames");
                s
            },
        }
    }
}

/// `prefix`, a state's name and a closing bracket.
fn with_state(prefix: &str, state: PlaybackState) -> (r: String)
    ensures
        r@ == prefix@ + state.text() + ")"@,
{
    let mut s: String = prefix.to_owned();
    s.append(state.name());
    s.append(")");
    s
}

/// Is `x` in `s`?
pub fn has_rate(s: &Vec<u32>, x: u32) -> (r: bool)
    ensures
        r == s@.contains(x),
{
    let mut i: usize = 0;
    while i < s.len()
        invariant
            i <= s@.len(),
            forall|k: int| 0 <= k < i ==> s@[k] != x,
        decreases s@.len() - i,
    {
        if s[i] == x {
            proof {
                assert(s@[i as int] == x);
            }
            return true;
        }
        i += 1;
    }
    false
}

/// The format of a loaded source.
#[derive(Debug, Clone, Copy, PartialEq, Eq)]
pub struct SourceFormat {
    pub sample_rate: u32,
    pub channels: u16,
    pub duration_frames: Option<u64>,
}

/// Loads a file source, given what opening the file came to.
pub fn load_file(opened: Result<FileSource, OpenFileError>) -> (r: Result<
    (FileSource, SourceFormat),
    StartError,
>)
    requires
        opened matches Ok(s) ==> s.wf(),
    ensures
        match opened {
            Ok(s) => r matches Ok(p) && p.0 == s && p.1 == (SourceFormat {
                sample_rate: s@.meta.sample_rate,
                channels: s@.meta.channels,
                duration_frames: Some(s@.meta.frames()),
            }),
            Err(e) => r matches Err(StartError::SourceUnreadable(m)) && m@ == e.text(),
        },
{
    match opened {
        Ok(s) => {
            let format = SourceFormat {
                sample_rate: s.sample_rate(),
                channels: s.channels(),
                duration_frames: s.duration_frames(),
            };
            Ok((s, format))
        },
        Err(e) => Err(source_unreadable(&e)),
    }
}

/// Loads an in-memory source.
pub fn load_buffer(samples: Arc<[u32]>, sample_rate: u32, channels: u16) -> (r: Result<
    (BufferSource, SourceFormat),
    StartError,
>)
    ensures
        if channels > 0 && samples@.len() % (channels as nat) == 0 {
            &&& r matches Ok(p)
            &&& p.0.wf()
            &&& p.0.remaining() == samples@
            &&& p.0.all() == samples@
            &&& p.0.channel_count() == channels
            &&& p.0.rate() == sample_rate
            &&& p.1 == (SourceFormat {
                sample_rate,
                channels,
                duration_frames: Some((samples@.len() / (channels as nat)) as u64),
            })
        } else {
            r matches Err(StartError::SourceUnreadable(m)) && m@
                == "buffer source: samples.len() must be a whole multiple of channels and channels > 0"@
        },
{
    match BufferSource::new(samples, sample_rate, channels) {
        Some(s) => {
            let duration_frames: Option<u64> = s.duration_frames();
            Ok((s, SourceFormat { sample_rate, channels, duration_frames }))
        },
        None => Err(
            StartError::SourceUnreadable(
                "buffer source: samples.len() must be a whole multiple of channels and channels > 0".to_owned(),
            ),
        ),
    }
}

/// Is the asked-for buffer size outside the range that a configuration tells?
pub open spec fn buffer_out_of_range(c: ConfigRange, buffer_size: BufferSize) -> bool {
    match (c.buffer_size, buffer_size) {
        (Some((min, max)), BufferSize::Fixed(n)) => n < min || n > max,
        _ => false,
    }
}

/// `i` is the first 32-bit float configuration for the source.
pub open spec fn chosen(cs: Seq<ConfigRange>, source: SourceFormat, i: int) -> bool {
    &&& 0 <= i < cs.len()
    &&& f32_config(cs[i], source.channels, source.sample_rate)
    &&& forall|k: int|
        0 <= k < i ==> !f32_config(#[trigger] cs[k], source.channels, source.sample_rate)
}

/// Is there a 32-bit float configuration for the source?
pub open spec fn playable(cs: Seq<ConfigRange>, source: SourceFormat) -> bool {
    exists|i: int|
        0 <= i < cs.len() && f32_config(#[trigger] cs[i], source.channels, source.sample_rate)
}

/// Opens playback of a loaded source on a device with these capabilities and
/// configurations. The first 32-bit float configuration that fits the source is
/// the one whose buffer sizes count. The handle plays once the stream is started.
pub fn open(
    source: SourceFormat,
    buffer_size: BufferSize,
    caps: OutputCapabilities,
    configs: &Vec<ConfigRange>,
) -> (r: Result<PlaybackHandle, StartError>)
    ensures
        if !caps.supported_sample_rates@.contains(source.sample_rate) {
            r matches Err(e) && e == (StartError::RateUnsupportedByDevice {
                requested: source.sample_rate,
                supported: caps.supported_sample_rates,
            })
        } else if !caps.channels@.contains(source.channels) {
            r matches Err(e) && e == (StartError::ChannelsUnsupportedByDevice {
                requested: source.channels,
                supported: caps.channels,
            })
        } else if !playable(configs@, source) {
            r matches Err(e) && e == (StartError::RateMismatch {
                source_rate: source.sample_rate,
                device_rate: caps.default_sample_rate,
            })
        } else {
            exists|i: int|
                chosen(configs@, source, i) && if buffer_out_of_range(
                    #[trigger] configs@[i],
                    buffer_size,
                ) {
                    r matches Err(e) && e == (StartError::BufferSizeOutOfRange {
                        requested: buffer_size->Fixed_0,
                        min: configs@[i].buffer_size->Some_0.0,
                        max: configs@[i].buffer_size->Some_0.1,
                    })
                } else {
                    r matches Ok(h) && h.wf() && h@.state == PlaybackState::Playing
                        && h@.sample_rate == source.sample_rate && h@.channels == source.channels
                        && h@.duration_frames == source.duration_frames && h@.signals == (
                    TransportSignals {
                        seek_target: 0,
                        seek_pending: false,
                        flush_request: false,
                        eof_seen: false,
                        playback_complete: false,
                        stop_request: false,
                    }) && h@.telemetry.position_frames == 0 && h@.telemetry.xrun_count == 0
                        && h@.telemetry.peak@ == Seq::new(source.channels as nat, |c: int| 0u32)
                        && h@.telemetry.running_peak@ == h@.telemetry.peak@
                        && h@.telemetry.mean_square@ == h@.telemetry.peak@
                }
        },
{
    if !has_rate(&caps.supported_sample_rates, source.sample_rate) {
        return Err(
            StartError::RateUnsupportedByDevice {
                requested: source.sample_rate,
                supported: caps.supported_sample_rates,
            },
        );
    }
    if !has_channels(&caps.channels, source.channels) {
        return Err(
            StartError::ChannelsUnsupportedByDevice {
                requested: source.channels,
                supported: caps.channels,
            },
        );
    }
    match first_f32_config(configs, source.channels, source.sample_rate) {
        None => Err(
            StartError::RateMismatch {
                source_rate: source.sample_rate,
                device_rate: caps.default_sample_rate,
            },
        ),
        Some(i) => {
            let config: ConfigRange = configs[i];
            proof {
                assert(chosen(configs@, source, i as int));
            }
            if let Some((min, max)) = config.buffer_size {
                if let BufferSize::Fixed(n) = buffer_size {
                    if n < min || n > max {
                        proof {
                            assert(buffer_out_of_range(configs@[i as int], buffer_size));
                        }
                        return Err(StartError::BufferSizeOutOfRange { requested: n, min, max });
                    }
                }
            }
            proof {
                assert(!buffer_out_of_range(configs@[i as int], buffer_size));
            }
            Ok(
                PlaybackHandle {
                    state: PlaybackState::Playing,
                    sample_rate: source.sample_rate,
                    channels: source.channels,
                    duration_frames: source.duration_frames,
                    telemetry: Telemetry::new(source.channels),
                    signals: TransportSignals::new(),
                },
            )
        },
    }
}

/// What a handle knows.
pub struct HandleView {
    /// The state as set; see [`HandleView::observed`].
    pub state: PlaybackState,
    pub sample_rate: u32,
    pub channels: u16,
    pub duration_frames: Option<u64>,
    /// The telemetry as last loaded from the output callback.
    pub telemetry: Telemetry,
    /// The flags as last loaded.
    pub signals: TransportSignals,
}

impl HandleView {
    /// The state that callers see: a playing handle whose last samples were
    /// played has ended.
    pub open spec fn observed(self) -> PlaybackState {
        if self.state == PlaybackState::Playing && self.signals.playback_complete {
            PlaybackState::Ended
        } else {
            self.state
        }
    }

    /// The snapshot that callers see.
    pub open spec fn snapshot(self) -> PlaybackStatus {
        PlaybackStatus {
            state: self.observed(),
            position_frames: self.telemetry.position_frames,
            duration_frames: self.duration_frames,
            sample_rate: self.sample_rate,
            channels: self.channels,
            xrun_count: self.telemetry.xrun_count,
        }
    }

    /// May it seek in this state?
    pub open spec fn seekable(self) -> bool {
        let s = self.observed();
        s == PlaybackState::Playing || s == PlaybackState::Paused || s == PlaybackState::Ended
    }

    /// Is this `before` with a seek to `frame` asked for? The take's peaks start
    /// anew.
    pub open spec fn sought(self, before: HandleView, frame: u64) -> bool {
        &&& self == (HandleView {
            signals: TransportSignals {
                seek_target: frame,
                seek_pending: true,
                ..before.signals
            },
            telemetry: self.telemetry,
            ..before
        })
        &&& self.telemetry == (Telemetry {
            running_peak: self.telemetry.running_peak,
            ..before.telemetry
        })
        &&& self.telemetry.running_peak@ == Seq::new(before.channels as nat, |i: int| 0u32)
    }

    /// May it be stopped in this state? Only a closed handle may not.
    pub open spec fn active(self) -> bool {
        self.observed() != PlaybackState::Closed
    }

    /// The handle once it is stopped: the reader and the output callback are told.
    pub open spec fn stopped(self) -> HandleView {
        HandleView {
            state: PlaybackState::Stopped,
            signals: TransportSignals { stop_request: true, ..self.signals },
            ..self
        }
    }
}

/// Stopping is safe in every state but the closed one, and doing it again changes
/// nothing: the handle is stopped and may be stopped once more.
pub proof fn law_stop_is_idempotent(h: HandleView)
    requires
        h.state != PlaybackState::Closed,
    ensures
        h.active(),
        h.stopped().observed() == PlaybackState::Stopped,
        h.stopped().active(),
        h.stopped().stopped() == h.stopped(),
        h.stopped().stopped().snapshot() == h.stopped().snapshot(),
{
}

/// A playback session.
#[derive(Debug)]
pub struct PlaybackHandle {
    state: PlaybackState,
    sample_rate: u32,
    channels: u16,
    duration_frames: Option<u64>,
    telemetry: Telemetry,
    signals: TransportSignals,
}

impl View for PlaybackHandle {
    type V = HandleView;

    closed spec fn view(&self) -> HandleView {
        HandleView {
            state: self.state,
            sample_rate: self.sample_rate,
            channels: self.channels,
            duration_frames: self.duration_frames,
            telemetry: self.telemetry,
            signals: self.signals,
        }
    }
}

impl PlaybackHandle {
    /// One level per channel.
    pub open spec fn wf(&self) -> bool {
        self@.telemetry.wf(self@.channels)
    }

    /// Takes in the telemetry and the flags as the other threads left them.
    pub fn load(&mut self, telemetry: Telemetry, signals: TransportSignals)
        requires
            telemetry.wf(old(self)@.channels),
        ensures
            final(self).wf(),
            final(self)@ == (HandleView { telemetry, signals, ..old(self)@ }),
    {
        self.telemetry = telemetry;
        self.signals = signals;
    }

    /// The flags, to be stored where the other threads see them.
    pub fn signals(&self) -> (r: TransportSignals)
        ensures
            r == self@.signals,
    {
        self.signals
    }

    /// The state that callers see.
    pub fn state(&self) -> (r: PlaybackState)
        ensures
            r == self@.observed(),
    {
        if self.state == PlaybackState::Playing && self.signals.playback_complete {
            PlaybackState::Ended
        } else {
            self.state
        }
    }

    /// May the stream be paused?
    pub fn check_pause(&self) -> (r: Result<(), TransportError>)
        ensures
            r is Ok <==> self@.state == PlaybackState::Playing,
            r matches Err(e) ==> e == (TransportError::NotPlaying { current: self@.state }),
    {
        if self.state != PlaybackState::Playing {
            return Err(TransportError::NotPlaying { current: self.state });
        }
        Ok(())
    }

    /// Pauses, given what pausing the stream answered.
    pub fn pause(&mut self, stream: Result<(), String>) -> (r: Result<(), TransportError>)
        requires
            old(self).wf(),
        ensures
            final(self).wf(),
            if old(self)@.state != PlaybackState::Playing {
                &&& r matches Err(e) && e == (TransportError::NotPlaying {
                    current: old(self)@.state,
                })
                &&& final(self)@ == old(self)@
            } else {
                match stream {
                    Err(m) => {
                        &&& r matches Err(e) && e == TransportError::BackendFailed(m)
                        &&& final(self)@ == old(self)@
                    },
                    Ok(_) => {
                        &&& r is Ok
                        &&& final(self)@ == (HandleView {
                            state: PlaybackState::Paused,
                            ..old(self)@
                        })
                    },
                }
            },
    {
        self.check_pause()?;
        match stream {
            Err(m) => Err(TransportError::BackendFailed(m)),
            Ok(_) => {
                self.state = PlaybackState::Paused;
                Ok(())
            },
        }
    }

    /// May the stream be resumed?
    pub fn check_resume(&self) -> (r: Result<(), TransportError>)
        ensures
            r is Ok <==> self@.state == PlaybackState::Paused,
            r matches Err(e) ==> e == (TransportError::NotPaused { current: self@.state }),
    {
        if self.state != PlaybackState::Paused {
            return Err(TransportError::NotPaused { current: self.state });
        }
        Ok(())
    }

    /// Resumes, given what starting the stream answered. The position carries
    /// over.
    pub fn resume(&mut self, stream: Result<(), String>) -> (r: Result<(), TransportError>)
        requires
            old(self).wf(),
        ensures
            final(self).wf(),
            if old(self)@.state != PlaybackState::Paused {
                &&& r matches Err(e) && e == (TransportError::NotPaused {
                    current: old(self)@.state,
                })
                &&& final(self)@ == old(self)@
            } else {
                match stream {
                    Err(m) => {
                        &&& r matches Err(e) && e == TransportError::BackendFailed(m)
                        &&& final(self)@ == old(self)@
                    },
                    Ok(_) => {
                        &&& r is Ok
                        &&& final(self)@ == (HandleView {
                            state: PlaybackState::Playing,
                            ..old(self)@
                        })
                    },
                }
            },
    {
        self.check_resume()?;
        match stream {
            Err(m) => Err(TransportError::BackendFailed(m)),
            Ok(_) => {
                self.state = PlaybackState::Playing;
                Ok(())
            },
        }
    }

    /// Asks for a seek to `frame`, from playing, paused or ended playback. The
    /// reader and the output callback carry it out. The take's peaks start anew.
    pub fn seek(&mut self, frame: u64) -> (r: Result<(), SeekError>)
        requires
            old(self).wf(),
        ensures
            final(self).wf(),
            if !old(self)@.seekable() {
                &&& r matches Err(e) && e == (SeekError::NotSeekable {
                    current: old(self)@.observed(),
                })
                &&& final(self)@ == old(self)@
            } else if old(self)@.duration_frames matches Some(max) && frame > max {
                &&& r matches Err(e) && e == (SeekError::OutOfBounds {
                    requested: frame,
                    max: old(self)@.duration_frames->Some_0,
                })
                &&& final(self)@ == old(self)@
            } else {
                &&& r is Ok
                &&& final(self)@.sought(old(self)@, frame)
            },
    {
        let observed: PlaybackState = self.state();
        match observed {
            PlaybackState::Idle | PlaybackState::Closed | PlaybackState::Errored
            | PlaybackState::Stopped | PlaybackState::Loading => {
                return Err(SeekError::NotSeekable { current: observed });
            },
            _ => {},
        }
        if let Some(max) = self.duration_frames {
            if frame > max {
                return Err(SeekError::OutOfBounds { requested: frame, max });
            }
        }
        self.signals.request_seek(frame);
        self.telemetry.reset_running_peaks();
        Ok(())
    }

    /// Stops, from every state but the closed one: the reader and the output
    /// callback are told. The stream is dropped and the reader joined afterwards.
    /// Stopping again is harmless.
    pub fn stop(&mut self) -> (r: Result<PlaybackStatus, StopError>)
        requires
            old(self).wf(),
        ensures
            final(self).wf(),
            if !old(self)@.active() {
                &&& r matches Err(e) && e == (StopError::NotActive {
                    current: old(self)@.observed(),
                })
                &&& final(self)@ == old(self)@
            } else {
                &&& final(self)@ == old(self)@.stopped()
                &&& r matches Ok(status) && status == final(self)@.snapshot()
            },
    {
        let observed: PlaybackState = self.state();
        if observed == PlaybackState::Closed {
            return Err(StopError::NotActive { current: observed });
        }
        self.signals.stop_request = true;
        self.state = PlaybackState::Stopped;
        Ok(self.status())
    }

    /// Playback position in frames.
    pub fn position_frames(&self) -> (r: u64)
        ensures
            r == self@.telemetry.position_frames,
    {
        self.telemetry.position_frames
    }

    /// The last buffer's peak of a channel; `None` for a channel that it does not
    /// have.
    pub fn peak_level(&self, channel: u16) -> (r: Option<u32>)
        requires
            self.wf(),
        ensures
            r == if channel < self@.channels {
                Some(self@.telemetry.peak@[channel as int])
            } else {
                None
            },
    {
        if channel >= self.channels {
            return None;
        }
        Some(self.telemetry.peak_value(channel))
    }

    /// The last buffer's mean square of a channel; `None` for a channel that it
    /// does not have.
    pub fn mean_square_level(&self, channel: u16) -> (r: Option<u32>)
        requires
            self.wf(),
        ensures
            r == if channel < self@.channels {
                Some(self@.telemetry.mean_square@[channel as int])
            } else {
                None
            },
    {
        if channel >= self.channels {
            return None;
        }
        Some(self.telemetry.mean_square_value(channel))
    }

    /// The levels of all channels.
    pub fn levels(&self) -> (r: PlaybackLevels)
        requires
            self.wf(),
        ensures
            r.peaks@ == self@.telemetry.peak@,
            r.mean_squares@ == self@.telemetry.mean_square@,
    {
        let mut peaks: Vec<u32> = Vec::new();
        let mut mean_squares: Vec<u32> = Vec::new();
        let mut c: u16 = 0;
        while c < self.channels
            invariant
                c <= self.channels,
                self.wf(),
                peaks@ == self.telemetry.peak@.take(c as int),
                mean_squares@ == self.telemetry.mean_square@.take(c as int),
            decreases self.channels - c,
        {
            peaks.push(self.telemetry.peak_value(c));
            mean_squares.push(self.telemetry.mean_square_value(c));
            proof {
                assert(peaks@ =~= self.telemetry.peak@.take(c + 1));
                assert(mean_squares@ =~= self.telemetry.mean_square@.take(c + 1));
            }
            c += 1;
        }
        proof {
            assert(peaks@ =~= self.telemetry.peak@);
            assert(mean_squares@ =~= self.telemetry.mean_square@);
        }
        PlaybackLevels { peaks, mean_squares }
    }

    /// Under-runs since playback began.
    pub fn xrun_count(&self) -> (r: u32)
        ensures
            r == self@.telemetry.xrun_count,
    {
        self.telemetry.xrun_count
    }

    /// The snapshot that callers see.
    pub fn status(&self) -> (r: PlaybackStatus)
        ensures
            r == self@.snapshot(),
    {
        PlaybackStatus {
            state: self.state(),
            position_frames: self.telemetry.position_frames,
            duration_frames: self.duration_frames,
            sample_rate: self.sample_rate,
            channels: self.channels,
            xrun_count: self.telemetry.xrun_count,
        }
    }

    /// The source's sample rate.
    pub fn sample_rate(&self) -> (r: u32)
        ensures
            r == self@.sample_rate,
    {
        self.sample_rate
    }

    /// The source's channel count.
    pub fn channels(&self) -> (r: u16)
        ensures
            r == self@.channels,
    {
        self.channels
    }

    /// Closes the handle: playback that runs is stopped, and the reader is told
    /// to exit in any case. Returns the flags to store.
    pub fn close(self) -> (r: TransportSignals)
        ensures
            r == (TransportSignals { stop_request: true, ..self@.signals }),
    {
        TransportSignals { stop_request: true, ..self.signals }
    }
}

/// What a seek leaves: the target is asked for, the session's peaks start at zero, and
/// the state, the place and everything else stay until the seek is carried out.
pub proof fn law_seek_restarts_the_peaks(before: HandleView, after: HandleView, frame: u64, c: int)
    requires
        after.sought(before, frame),
        0 <= c < before.channels,
    ensures
        after.signals.seek_pending,
        after.signals.seek_target == frame,
        after.signals.flush_request == before.signals.flush_request,
        after.signals.eof_seen == before.signals.eof_seen,
        after.signals.stop_request == before.signals.stop_request,
        after.telemetry.running_peak@.len() == before.channels,
        after.telemetry.running_peak@[c] == 0,
        after.telemetry.peak@ == before.telemetry.peak@,
        after.snapshot() == before.snapshot(),
{
}

/// What callers see of a session: playing until its last sample was played, then ended;
/// in every other state what was set. It may seek while it plays, is paused or has
/// ended.
pub proof fn law_observed_states(h: HandleView)
    ensures
        h.observed() == PlaybackState::Ended <==> h.state == PlaybackState::Ended || (h.state
            == PlaybackState::Playing && h.signals.playback_complete),
        h.state != PlaybackState::Playing || !h.signals.playback_complete ==> h.observed()
            == h.state,
        h.state == PlaybackState::Playing || h.state == PlaybackState::Paused ==> h.seekable(),
        h.state == PlaybackState::Stopped || h.state == PlaybackState::Closed ==> !h.seekable(),
        h.snapshot().position_frames == h.telemetry.position_frames,
        h.snapshot().xrun_count == h.telemetry.xrun_count,
        h.snapshot().duration_frames == h.duration_frames,
        h.snapshot().sample_rate == h.sample_rate,
        h.snapshot().channels == h.channels,
        h.snapshot().state == h.observed(),
        h.stopped().signals.stop_request,
        h.stopped().telemetry == h.telemetry,
{
}

/// A source can be played where some 32-bit float configuration has its channels and
/// its rate, and the first such one is chosen; a buffer size that was asked for fits
/// where it lies within the bounds, the bounds included, or where none are told.
pub proof fn law_first_fitting_configuration_is_chosen(
    cs: Seq<ConfigRange>,
    source: SourceFormat,
    i: int,
    n: u32,
)
    requires
        0 <= i < cs.len(),
    ensures
        cs[i].is_f32 && cs[i].channels == source.channels && cs[i].min_sample_rate
            <= source.sample_rate <= cs[i].max_sample_rate ==> playable(cs, source),
        chosen(cs, source, i) ==> cs[i].is_f32 && cs[i].channels == source.channels
            && cs[i].min_sample_rate <= source.sample_rate <= cs[i].max_sample_rate,
        cs[i].is_f32 && cs[i].channels == source.channels && cs[i].min_sample_rate
            <= source.sample_rate <= cs[i].max_sample_rate ==> exists|k: int|
            0 <= k <= i && chosen(cs, source, k),
        !buffer_out_of_range(cs[i], BufferSize::Default),
        cs[i].buffer_size is None ==> !buffer_out_of_range(cs[i], BufferSize::Fixed(n)),
        cs[i].buffer_size matches Some((min, max)) ==> (buffer_out_of_range(
            cs[i],
            BufferSize::Fixed(n),
        ) <==> n < min || max < n),
    decreases i,
{
    if f32_config(cs[i], source.channels, source.sample_rate) {
        if exists|k: int|
            0 <= k < i && f32_config(#[trigger] cs[k], source.channels, source.sample_rate) {
            let k = choose|k: int|
                0 <= k < i && f32_config(#[trigger] cs[k], source.channels, source.sample_rate);
            law_first_fitting_configuration_is_chosen(cs, source, k, n);
            let j = choose|j: int| 0 <= j <= k && chosen(cs, source, j);
            assert(chosen(cs, source, j));
        } else {
            assert(chosen(cs, source, i));
        }
    }
}

/// Which states a seek and a stop are allowed in.
pub proof fn law_states_that_allow_seek_and_stop(h: HandleView)
    ensures
        h.seekable() <==> h.state is Playing || h.state is Paused || h.state is Ended,
        h.active() <==> !(h.state is Closed),
        h.stopped().state is Stopped,
        h.stopped().duration_frames == h.duration_frames,
        h.stopped().sample_rate == h.sample_rate,
        h.stopped().channels == h.channels,
        h.stopped().signals.seek_target == h.signals.seek_target,
{
}

} // verus!
