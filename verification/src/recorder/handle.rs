//! The recording handle: which operation is allowed when, and what it leads to.
//!
//! The stream, the writer thread and the file belong to whoever drives the
//! handle. It hands in what they answered; an operation that the state does not
//! allow is refused whatever they answered, and can be asked for beforehand.
use super::error::{ArmError, CancelError, OpenError, RecordError, StopError};
use super::state::{is_metering_state, RecorderState};
use super::telemetry::Telemetry;
use super::writer::WriterOutcome;
use super::{RecordedClip, RecordingSpec};
use crate::audio_devices::capabilities::ConfigRange;
use crate::audio_devices::types::InputCapabilities;
use crate::ids::{is_random_uuid, new_uuid};
use vstd::prelude::*;
use vstd::string::*;

verus! {

/// Why the output file could not be created.
#[derive(Debug, Clone, Copy, PartialEq, Eq, Structural)]
pub enum CreateFailure {
    PermissionDenied,
    StorageFull,
    Other,
}

/// How the writer thread ended.
#[derive(Debug)]
pub enum WriterEnd {
    Panicked,
    Failed(String),
    Done(WriterOutcome),
}

/// Is `x` in `s`?
pub fn has_channels(s: &Vec<u16>, x: u16) -> (r: bool)
    ensures
        r == s@.contains(x),
{
    let mut i: usize = 0;
    while i < s.len()
        invariant
            i <= s@.len(),
            forall|k: int| 0 <= k < i ==> s@[k] != x,
        decreases s@.len() - i,
    {
        if s[i] == x {
            proof {
                assert(s@[i as int] == x);
            }
            return true;
        }
        i += 1;
    }
    false
}

/// Can a 32-bit float configuration of these channels run at this rate?
pub open spec fn f32_config(c: ConfigRange, channels: u16, sample_rate: u32) -> bool {
    c.is_f32 && c.channels == channels && c.min_sample_rate <= sample_rate <= c.max_sample_rate
}

/// The index of the first 32-bit float configuration of these channels that runs
/// at this rate.
pub fn first_f32_config(cs: &Vec<ConfigRange>, channels: u16, sample_rate: u32) -> (r: Option<
    usize,
>)
    ensures
        match r {
            Some(i) => {
                &&& i < cs@.len()
                &&& f32_config(cs@[i as int], channels, sample_rate)
                &&& forall|k: int|
                    0 <= k < i ==> !f32_config(#[trigger] cs@[k], channels, sample_rate)
            },
            None => forall|k: int|
                0 <= k < cs@.len() ==> !f32_config(#[trigger] cs@[k], channels, sample_rate),
        },
{
    let mut i: usize = 0;
    while i < cs.len()
        invariant
            i <= cs@.len(),
            forall|k: int| 0 <= k < i ==> !f32_config(#[trigger] cs@[k], channels, sample_rate),
        decreases cs@.len() - i,
    {
        let c: ConfigRange = cs[i];
        if c.is_f32 && c.channels == channels && c.min_sample_rate <= sample_rate && sample_rate
            <= c.max_sample_rate {
            return Some(i);
        }
        i += 1;
    }
    None
}

/// Does the device take this format? Its capabilities must cover it, and some
/// 32-bit float configuration must run it.
pub open spec fn format_supported(
    spec: RecordingSpec,
    caps: InputCapabilities,
    cs: Seq<ConfigRange>,
) -> bool {
    &&& caps.channels@.contains(spec.channels)
    &&& caps.min_sample_rate <= spec.sample_rate <= caps.max_sample_rate
    &&& exists|k: int|
        0 <= k < cs.len() && f32_config(#[trigger] cs[k], spec.channels, spec.sample_rate)
}

/// Opens a recording on a device with these capabilities and configurations. The
/// stream is built afterwards.
pub fn open(spec: RecordingSpec, caps: InputCapabilities, configs: &Vec<ConfigRange>) -> (r: Result<
    RecordingHandle,
    OpenError,
>)
    ensures
        match r {
            Ok(h) => format_supported(spec, caps, configs@) && h.wf() && h@ == (HandleView {
                state: RecorderState::Idle,
                sample_rate: spec.sample_rate,
                channels: spec.channels,
                consumer: true,
                started_at: None,
                telemetry: h@.telemetry,
            }) && h@.telemetry.peak@ == Seq::new(spec.channels as nat, |i: int| 0u32)
                && h@.telemetry.running_peak@ == h@.telemetry.peak@ && h@.telemetry.mean_square@
                == h@.telemetry.peak@ && h@.telemetry.dropped_samples == 0
                && h@.telemetry.xrun_count == 0 && !h@.telemetry.non_finite_seen,
            Err(e) => !format_supported(spec, caps, configs@) && e == (
            OpenError::FormatUnsupported { requested: Box::new(spec), supported: Box::new(caps) }),
        },
{
    if !has_channels(&caps.channels, spec.channels) || spec.sample_rate < caps.min_sample_rate
        || spec.sample_rate > caps.max_sample_rate {
        return Err(
            OpenError::FormatUnsupported { requested: Box::new(spec), supported: Box::new(caps) },
        );
    }
    if first_f32_config(configs, spec.channels, spec.sample_rate).is_none() {
        return Err(
            OpenError::FormatUnsupported { requested: Box::new(spec), supported: Box::new(caps) },
        );
    }
    Ok(
        RecordingHandle {
            state: RecorderState::Idle,
            sample_rate: spec.sample_rate,
            channels: spec.channels,
            telemetry: Telemetry::new(spec.channels),
            consumer: true,
            started_at: None,
        },
    )
}

/// Why a take whose writer ended like this yields no clip; `None` where it
/// yields one.
pub open spec fn end_fault(writer: WriterEnd) -> Option<Seq<char>> {
    match writer {
        WriterEnd::Panicked => Some("writer thread panicked"@),
        WriterEnd::Failed(text) => Some(text@),
        WriterEnd::Done(outcome) => match outcome.finalized {
            None => Some("writer returned no clip"@),
            Some(_) => None,
        },
    }
}

/// What a handle knows.
pub struct HandleView {
    pub state: RecorderState,
    pub sample_rate: u32,
    pub channels: u16,
    /// Is the ring's reading end still here? A writer takes it for good.
    pub consumer: bool,
    /// When the take began, in nanoseconds since the Unix epoch.
    pub started_at: Option<u64>,
    /// The telemetry as last loaded from the capture thread.
    pub telemetry: Telemetry,
}

/// A recording session.
#[derive(Debug)]
pub struct RecordingHandle {
    state: RecorderState,
    sample_rate: u32,
    channels: u16,
    telemetry: Telemetry,
    consumer: bool,
    started_at: Option<u64>,
}

impl View for RecordingHandle {
    type V = HandleView;

    closed spec fn view(&self) -> HandleView {
        HandleView {
            state: self.state,
            sample_rate: self.sample_rate,
            channels: self.channels,
            consumer: self.consumer,
            started_at: self.started_at,
            telemetry: self.telemetry,
        }
    }
}

impl RecordingHandle {
    /// One level per channel, and a running take has its start.
    pub open spec fn wf(&self) -> bool {
        &&& self@.telemetry.wf(self@.channels)
        &&& self@.state == RecorderState::Recording ==> self@.started_at is Some
            && !self@.consumer
    }

    /// Takes in the telemetry as the capture thread left it.
    pub fn load_telemetry(&mut self, telemetry: Telemetry)
        requires
            old(self).wf(),
            telemetry.wf(old(self)@.channels),
        ensures
            final(self).wf(),
            final(self)@ == (HandleView { telemetry, ..old(self)@ }),
    {
        self.telemetry = telemetry;
    }

    /// May the stream be started?
    pub fn check_arm(&self) -> (r: Result<(), ArmError>)
        ensures
            r is Ok <==> self@.state == RecorderState::Idle,
            r matches Err(e) ==> e == (ArmError::NotIdle { current: self@.state }),
    {
        if self.state != RecorderState::Idle {
            return Err(ArmError::NotIdle { current: self.state });
        }
        Ok(())
    }

    /// Arms an idle handle, given what starting the stream answered.
    pub fn arm(&mut self, stream: Result<(), String>) -> (r: Result<(), ArmError>)
        requires
            old(self).wf(),
        ensures
            final(self).wf(),
            if old(self)@.state != RecorderState::Idle {
                &&& r matches Err(e) && e == (ArmError::NotIdle { current: old(self)@.state })
                &&& final(self)@ == old(self)@
            } else {
                match stream {
                    Err(m) => {
                        &&& r matches Err(e) && e == ArmError::BuildStreamFailed(m)
                        &&& final(self)@ == old(self)@
                    },
                    Ok(_) => {
                        &&& r is Ok
                        &&& final(self)@ == (HandleView {
                            state: RecorderState::Armed,
                            ..old(self)@
                        })
                    },
                }
            },
    {
        self.check_arm()?;
        match stream {
            Err(m) => Err(ArmError::BuildStreamFailed(m)),
            Ok(_) => {
                self.state = RecorderState::Armed;
                Ok(())
            },
        }
    }

    /// May a file be created and a writer started?
    pub fn check_record(&self) -> (r: Result<(), RecordError>)
        ensures
            r is Ok <==> self@.state == RecorderState::Armed,
            r matches Err(e) ==> e == (RecordError::NotArmed { current: self@.state }),
    {
        if self.state != RecorderState::Armed {
            return Err(RecordError::NotArmed { current: self.state });
        }
        Ok(())
    }

    /// Starts the take of an armed handle, given what creating the file at
    /// `output_path` answered. Running peaks start anew. A handle whose ring went
    /// to an earlier writer cannot record again.
    pub fn record(
        &mut self,
        output_path: &str,
        created: Result<(), CreateFailure>,
        now: u64,
    ) -> (r: Result<(), RecordError>)
        requires
            old(self).wf(),
        ensures
            final(self).wf(),
            r is Ok <==> old(self)@.state == RecorderState::Armed && created is Ok && old(
                self,
            )@.consumer,
            r is Ok ==> {
                &&& final(self)@ == (HandleView {
                    state: RecorderState::Recording,
                    consumer: false,
                    started_at: Some(now),
                    telemetry: final(self)@.telemetry,
                    ..old(self)@
                })
                &&& final(self)@.telemetry.running_peak@ == Seq::new(
                    old(self)@.channels as nat,
                    |i: int| 0u32,
                )
                &&& final(self)@.telemetry == (Telemetry {
                    running_peak: final(self)@.telemetry.running_peak,
                    ..old(self)@.telemetry
                })
            },
            r matches Err(e) ==> {
                &&& *final(self) == *old(self)
                &&& if old(self)@.state != RecorderState::Armed || created is Ok {
                    e == (RecordError::NotArmed { current: old(self)@.state })
                } else {
                    match created->Err_0 {
                        CreateFailure::PermissionDenied => e matches RecordError::PermissionDenied(
                            p,
                        ) && p@ == output_path@,
                        CreateFailure::StorageFull => e == RecordError::DiskFull,
                        CreateFailure::Other => e matches RecordError::OutputPathInvalid(p) && p@
                            == output_path@,
                    }
                }
            },
    {
        self.check_record()?;
        match created {
            Err(CreateFailure::PermissionDenied) => {
                return Err(RecordError::PermissionDenied(output_path.to_owned()));
            },
            Err(CreateFailure::StorageFull) => {
                return Err(RecordError::DiskFull);
            },
            Err(CreateFailure::Other) => {
                return Err(RecordError::OutputPathInvalid(output_path.to_owned()));
            },
            Ok(_) => {},
        }
        if !self.consumer {
            return Err(RecordError::NotArmed { current: self.state });
        }
        self.consumer = false;
        self.telemetry.reset_running_peaks();
        self.started_at = Some(now);
        self.state = RecorderState::Recording;
        Ok(())
    }

    /// May the writer be told to stop?
    pub fn check_stop(&self) -> (r: Result<(), StopError>)
        ensures
            r is Ok <==> self@.state == RecorderState::Recording,
            r matches Err(e) ==> e == (StopError::NotRecording { current: self@.state }),
    {
        if self.state != RecorderState::Recording {
            return Err(StopError::NotRecording { current: self.state });
        }
        Ok(())
    }

    /// Ends a take, given how the writer ended: the clip, under the identifier
    /// `uuid`. A handle whose writer failed stays in `Stopping`.
    pub fn stop_as(&mut self, writer: WriterEnd, uuid: u128) -> (r: Result<RecordedClip, StopError>)
        requires
            old(self).wf(),
        ensures
            final(self).wf(),
            if old(self)@.state != RecorderState::Recording {
                &&& r matches Err(e) && e == (StopError::NotRecording {
                    current: old(self)@.state,
                })
                &&& *final(self) == *old(self)
            } else {
                match writer {
                    WriterEnd::Panicked => r matches Err(StopError::FinalizeFailed(m)) && m@
                        == "writer thread panicked"@ && final(self)@ == (HandleView {
                        state: RecorderState::Stopping,
                        ..old(self)@
                    }),
                    WriterEnd::Failed(text) => r matches Err(StopError::FinalizeFailed(m)) && m
                        == text && final(self)@ == (HandleView {
                        state: RecorderState::Stopping,
                        ..old(self)@
                    }),
                    WriterEnd::Done(outcome) => match outcome.finalized {
                        None => r matches Err(StopError::FinalizeFailed(m)) && m@
                            == "writer returned no clip"@ && final(self)@ == (HandleView {
                            state: RecorderState::Stopping,
                            ..old(self)@
                        }),
                        Some(fin) => {
                            &&& r matches Ok(clip)
                            &&& clip.path == outcome.path
                            &&& clip.uuid == uuid
                            &&& clip.sample_rate == old(self)@.sample_rate
                            &&& clip.channels == old(self)@.channels
                            &&& clip.frame_count == fin.frame_count
                            &&& Some(clip.started_at) == old(self)@.started_at
                            &&& clip.xrun_count == old(self)@.telemetry.xrun_count
                            &&& clip.dropped_samples == old(self)@.telemetry.dropped_samples
                            &&& clip.peaks@ == old(self)@.telemetry.running_peak@
                            &&& final(self)@ == (HandleView {
                                state: RecorderState::Idle,
                                started_at: None,
                                ..old(self)@
                            })
                        },
                    },
                }
            },
    {
        self.check_stop()?;
        self.state = RecorderState::Stopping;
        let outcome: WriterOutcome = match writer {
            WriterEnd::Panicked => {
                return Err(StopError::FinalizeFailed("writer thread panicked".to_owned()));
            },
            WriterEnd::Failed(text) => {
                return Err(StopError::FinalizeFailed(text));
            },
            WriterEnd::Done(outcome) => outcome,
        };
        match outcome.finalized {
            None => Err(StopError::FinalizeFailed("writer returned no clip".to_owned())),
            Some(fin) => {
                let started_at: u64 = match self.started_at {
                    Some(t) => t,
                    None => 0,
                };
                let mut peaks: Vec<u32> = Vec::new();
                let mut c: u16 = 0;
                while c < self.channels
                    invariant
                        c <= self.channels,
                        self.telemetry.wf(self.channels),
                        peaks@ == self.telemetry.running_peak@.take(c as int),
                    decreases self.channels - c,
                {
                    peaks.push(self.telemetry.running_peak_value(c));
                    proof {
                        assert(peaks@ =~= self.telemetry.running_peak@.take(c + 1));
                    }
                    c += 1;
                }
                proof {
                    assert(peaks@ =~= self.telemetry.running_peak@);
                }
                self.started_at = None;
                self.state = RecorderState::Idle;
                Ok(
                    RecordedClip {
                        path: outcome.path,
                        uuid,
                        sample_rate: self.sample_rate,
                        channels: self.channels,
                        frame_count: fin.frame_count,
                        started_at,
                        xrun_count: self.telemetry.xrun_count,
                        dropped_samples: self.telemetry.dropped_samples,
                        peaks,
                    },
                )
            },
        }
    }

    /// Ends a take under a new random identifier. What is returned for each
    /// identifier is what [`RecordingHandle::stop_as`] says.
    pub fn stop(&mut self, writer: WriterEnd) -> (r: Result<RecordedClip, StopError>)
        requires
            old(self).wf(),
        ensures
            final(self).wf(),
            r is Ok <==> old(self)@.state == RecorderState::Recording && (writer matches WriterEnd::Done(
                outcome,
            ) && outcome.finalized is Some),
            r matches Ok(clip) ==> is_random_uuid(clip.uuid) && clip.frame_count
                == writer->Done_0.finalized->Some_0.frame_count && clip.path
                == writer->Done_0.path && clip.sample_rate == old(self)@.sample_rate
                && clip.channels == old(self)@.channels && Some(clip.started_at) == old(
                self,
            )@.started_at && clip.xrun_count == old(self)@.telemetry.xrun_count
                && clip.dropped_samples == old(self)@.telemetry.dropped_samples && clip.peaks@
                == old(self)@.telemetry.running_peak@ && final(self)@ == (HandleView {
                state: RecorderState::Idle,
                started_at: None,
                ..old(self)@
            }),
            r is Err && old(self)@.state == RecorderState::Recording ==> final(self)@ == (
            HandleView { state: RecorderState::Stopping, ..old(self)@ }) && (
            r matches Err(StopError::FinalizeFailed(m)) && Some(m@) == end_fault(writer)),
            old(self)@.state != RecorderState::Recording ==> *final(self) == *old(self) && r
                == Result::<RecordedClip, StopError>::Err(
                StopError::NotRecording { current: old(self)@.state },
            ),
    {
        self.stop_as(writer, new_uuid())
    }

    /// May the writer be told to cancel?
    pub fn check_cancel(&self) -> (r: Result<(), CancelError>)
        ensures
            r is Ok <==> self@.state == RecorderState::Recording,
            r matches Err(e) ==> e == (CancelError::NotRecording { current: self@.state }),
    {
        if self.state != RecorderState::Recording {
            return Err(CancelError::NotRecording { current: self.state });
        }
        Ok(())
    }

    /// Cancels a take, given how the writer ended. Returns the path of the
    /// partial file to delete: where the writer saw the cancel and did not
    /// finalize.
    pub fn cancel(&mut self, writer: WriterEnd) -> (r: Result<Option<String>, CancelError>)
        requires
            old(self).wf(),
        ensures
            final(self).wf(),
            if old(self)@.state != RecorderState::Recording {
                &&& r matches Err(e) && e == (CancelError::NotRecording {
                    current: old(self)@.state,
                })
                &&& *final(self) == *old(self)
            } else {
                &&& final(self)@ == (HandleView { state: RecorderState::Idle, ..old(self)@ })
                &&& r matches Ok(path)
                &&& path == match writer {
                    WriterEnd::Done(outcome) => if outcome.finalized is None {
                        Some(outcome.path)
                    } else {
                        None
                    },
                    _ => None,
                }
            },
    {
        self.check_cancel()?;
        self.state = RecorderState::Idle;
        match writer {
            WriterEnd::Done(outcome) => {
                if outcome.finalized.is_none() {
                    Ok(Some(outcome.path))
                } else {
                    Ok(None)
                }
            },
            _ => Ok(None),
        }
    }

    /// The last buffer's peak of a channel while the meter is live; `None` stands
    /// for no signal at all.
    pub fn peak_level(&self, channel: u16) -> (r: Option<u32>)
        requires
            self.wf(),
        ensures
            r == if self@.state.meters() && channel < self@.channels {
                Some(self@.telemetry.peak@[channel as int])
            } else {
                None
            },
    {
        if !is_metering_state(self.state) || channel >= self.channels {
            return None;
        }
        Some(self.telemetry.peak_value(channel))
    }

    /// The last buffer's mean square of a channel while the meter is live; `None`
    /// stands for no signal at all.
    pub fn mean_square_level(&self, channel: u16) -> (r: Option<u32>)
        requires
            self.wf(),
        ensures
            r == if self@.state.meters() && channel < self@.channels {
                Some(self@.telemetry.mean_square@[channel as int])
            } else {
                None
            },
    {
        if !is_metering_state(self.state) || channel >= self.channels {
            return None;
        }
        Some(self.telemetry.mean_square_value(channel))
    }

    pub fn xrun_count(&self) -> (r: u32)
        ensures
            r == self@.telemetry.xrun_count,
    {
        self.telemetry.xrun_count
    }

    pub fn dropped_samples(&self) -> (r: u64)
        ensures
            r == self@.telemetry.dropped_samples,
    {
        self.telemetry.dropped_samples
    }

    pub fn state(&self) -> (r: RecorderState)
        ensures
            r == self@.state,
    {
        self.state
    }

    pub fn channels(&self) -> (r: u16)
        ensures
            r == self@.channels,
    {
        self.channels
    }

    pub fn sample_rate(&self) -> (r: u32)
        ensures
            r == self@.sample_rate,
    {
        self.sample_rate
    }

    /// Gives the handle up. Its resources go with it.
    pub fn close(self) -> (r: RecorderState)
        ensures
            r == RecorderState::Closed,
    {
        RecorderState::Closed
    }
}

/// A format can be recorded where the device has the channels, its rates reach the
/// rate, and some 32-bit float configuration has both.
pub proof fn law_recordable_formats(
    spec: RecordingSpec,
    caps: InputCapabilities,
    cs: Seq<ConfigRange>,
)
    ensures
        format_supported(spec, caps, cs) <==> caps.channels@.contains(spec.channels)
            && caps.min_sample_rate <= spec.sample_rate && spec.sample_rate <= caps.max_sample_rate
            && exists|k: int|
            0 <= k < cs.len() && (#[trigger] cs[k]).is_f32 && cs[k].channels == spec.channels
                && cs[k].min_sample_rate <= spec.sample_rate && spec.sample_rate
                <= cs[k].max_sample_rate,
{
    if format_supported(spec, caps, cs) {
        let k = choose|k: int|
            0 <= k < cs.len() && f32_config(#[trigger] cs[k], spec.channels, spec.sample_rate);
        assert(cs[k].is_f32);
    }
    if exists|k: int|
        0 <= k < cs.len() && (#[trigger] cs[k]).is_f32 && cs[k].channels == spec.channels
            && cs[k].min_sample_rate <= spec.sample_rate && spec.sample_rate
            <= cs[k].max_sample_rate {
        let k = choose|k: int|
            0 <= k < cs.len() && (#[trigger] cs[k]).is_f32 && cs[k].channels == spec.channels
                && cs[k].min_sample_rate <= spec.sample_rate && spec.sample_rate
                <= cs[k].max_sample_rate;
        assert(f32_config(cs[k], spec.channels, spec.sample_rate));
    }
}

/// A take ends without a fault exactly where its writer is done and left a finished
/// file; the writer's own words are the fault where it failed.
pub proof fn law_finished_takes_end_without_fault(writer: WriterEnd)
    ensures
        end_fault(writer) is None <==> (writer matches WriterEnd::Done(outcome)
            && outcome.finalized is Some),
        writer matches WriterEnd::Failed(m) ==> end_fault(writer) == Some(m@),
{
}

} // verus!
