//! The shapes that tools take and give, flat and without engine types.
use crate::audio_devices::types::{
    Backend, BufferSize, InputCapabilities, InputDeviceInfo, OutputCapabilities, OutputDeviceInfo,
};
use crate::recorder::state::RecorderState;
use vstd::prelude::*;

verus! {

/// Result of listing the input devices.
#[derive(Debug, Clone)]
pub struct ListDevicesResult {
    pub devices: Vec<DeviceInfoJson>,
}

/// An input device.
#[derive(Debug, Clone)]
pub struct DeviceInfoJson {
    /// Pass this to other tools.
    pub device_id: String,
    pub name: String,
    pub backend: BackendJson,
    pub is_default_input: bool,
    pub is_class_compliant_usb: bool,
    pub max_input_channels: u16,
}

/// An output device.
#[derive(Debug, Clone)]
pub struct OutputDeviceInfoJson {
    /// Pass this to other tools.
    pub device_id: String,
    pub name: String,
    pub backend: BackendJson,
    pub is_default_output: bool,
    pub max_output_channels: u16,
}

/// A backend.
#[derive(Debug, Clone, PartialEq, Eq)]
pub enum BackendJson {
    Alsa,
    PipeWire,
    Jack,
    CoreAudio,
    Wasapi,
    Asio,
    /// A host that is not listed, by its own name.
    Other(String),
}

impl From<Backend> for BackendJson {
    fn from(b: Backend) -> (r: BackendJson) {
        match b {
            Backend::Alsa => BackendJson::Alsa,
            Backend::PipeWire => BackendJson::PipeWire,
            Backend::Jack => BackendJson::Jack,
            Backend::CoreAudio => BackendJson::CoreAudio,
            Backend::Wasapi => BackendJson::Wasapi,
            Backend::Asio => BackendJson::Asio,
            Backend::Other(name) => BackendJson::Other(name),
        }
    }
}

impl vstd::std_specs::convert::FromSpecImpl<Backend> for BackendJson {
    open spec fn obeys_from_spec() -> bool {
        true
    }

    open spec fn from_spec(b: Backend) -> BackendJson {
        match b {
            Backend::Alsa => BackendJson::Alsa,
            Backend::PipeWire => BackendJson::PipeWire,
            Backend::Jack => BackendJson::Jack,
            Backend::CoreAudio => BackendJson::CoreAudio,
            Backend::Wasapi => BackendJson::Wasapi,
            Backend::Asio => BackendJson::Asio,
            Backend::Other(name) => BackendJson::Other(name),
        }
    }
}

/// The wire form of a backend.
pub open spec fn backend_json(b: Backend) -> BackendJson {
    <BackendJson as vstd::std_specs::convert::FromSpec<Backend>>::from_spec(b)
}

impl From<InputDeviceInfo> for DeviceInfoJson {
    fn from(d: InputDeviceInfo) -> (r: DeviceInfoJson) {
        DeviceInfoJson {
            device_id: d.id.0,
            name: d.name,
            backend: BackendJson::from(d.backend),
            is_default_input: d.is_default_input,
            is_class_compliant_usb: d.is_class_compliant_usb,
            max_input_channels: d.max_input_channels,
        }
    }
}

impl vstd::std_specs::convert::FromSpecImpl<InputDeviceInfo> for DeviceInfoJson {
    open spec fn obeys_from_spec() -> bool {
        true
    }

    open spec fn from_spec(d: InputDeviceInfo) -> DeviceInfoJson {
        DeviceInfoJson {
            device_id: d.id.0,
            name: d.name,
            backend: backend_json(d.backend),
            is_default_input: d.is_default_input,
            is_class_compliant_usb: d.is_class_compliant_usb,
            max_input_channels: d.max_input_channels,
        }
    }
}

impl From<OutputDeviceInfo> for OutputDeviceInfoJson {
    fn from(d: OutputDeviceInfo) -> (r: OutputDeviceInfoJson) {
        OutputDeviceInfoJson {
            device_id: d.id.0,
            name: d.name,
            backend: BackendJson::from(d.backend),
            is_default_output: d.is_default_output,
            max_output_channels: d.max_output_channels,
        }
    }
}

impl vstd::std_specs::convert::FromSpecImpl<OutputDeviceInfo> for OutputDeviceInfoJson {
    open spec fn obeys_from_spec() -> bool {
        true
    }

    open spec fn from_spec(d: OutputDeviceInfo) -> OutputDeviceInfoJson {
        OutputDeviceInfoJson {
            device_id: d.id.0,
            name: d.name,
            backend: backend_json(d.backend),
            is_default_output: d.is_default_output,
            max_output_channels: d.max_output_channels,
        }
    }
}

/// Argument of describing a device.
#[derive(Debug, Clone)]
pub struct DescribeDeviceArgs {
    pub device_id: String,
}

/// What a device can do.
#[derive(Debug, Clone)]
pub struct CapabilitiesJson {
    pub min_sample_rate: u32,
    pub max_sample_rate: u32,
    pub supported_sample_rates: Vec<u32>,
    pub min_buffer_size: u32,
    pub max_buffer_size: u32,
    pub channels: Vec<u16>,
    pub default_sample_rate: u32,
    pub default_buffer_size: u32,
}

impl From<InputCapabilities> for CapabilitiesJson {
    fn from(c: InputCapabilities) -> (r: CapabilitiesJson) {
        CapabilitiesJson {
            min_sample_rate: c.min_sample_rate,
            max_sample_rate: c.max_sample_rate,
            supported_sample_rates: c.supported_sample_rates,
            min_buffer_size: c.min_buffer_size,
            max_buffer_size: c.max_buffer_size,
            channels: c.channels,
            default_sample_rate: c.default_sample_rate,
            default_buffer_size: c.default_buffer_size,
        }
    }
}

impl vstd::std_specs::convert::FromSpecImpl<InputCapabilities> for CapabilitiesJson {
    open spec fn obeys_from_spec() -> bool {
        true
    }

    open spec fn from_spec(c: InputCapabilities) -> CapabilitiesJson {
        CapabilitiesJson {
            min_sample_rate: c.min_sample_rate,
            max_sample_rate: c.max_sample_rate,
            supported_sample_rates: c.supported_sample_rates,
            min_buffer_size: c.min_buffer_size,
            max_buffer_size: c.max_buffer_size,
            channels: c.channels,
            default_sample_rate: c.default_sample_rate,
            default_buffer_size: c.default_buffer_size,
        }
    }
}

impl From<OutputCapabilities> for CapabilitiesJson {
    fn from(c: OutputCapabilities) -> (r: CapabilitiesJson) {
        CapabilitiesJson {
            min_sample_rate: c.min_sample_rate,
            max_sample_rate: c.max_sample_rate,
            supported_sample_rates: c.supported_sample_rates,
            min_buffer_size: c.min_buffer_size,
            max_buffer_size: c.max_buffer_size,
            channels: c.channels,
            default_sample_rate: c.default_sample_rate,
            default_buffer_size: c.default_buffer_size,
        }
    }
}

impl vstd::std_specs::convert::FromSpecImpl<OutputCapabilities> for CapabilitiesJson {
    open spec fn obeys_from_spec() -> bool {
        true
    }

    open spec fn from_spec(c: OutputCapabilities) -> CapabilitiesJson {
        CapabilitiesJson {
            min_sample_rate: c.min_sample_rate,
            max_sample_rate: c.max_sample_rate,
            supported_sample_rates: c.supported_sample_rates,
            min_buffer_size: c.min_buffer_size,
            max_buffer_size: c.max_buffer_size,
            channels: c.channels,
            default_sample_rate: c.default_sample_rate,
            default_buffer_size: c.default_buffer_size,
        }
    }
}

/// A buffer size: the backend's choice, or a number of samples.
#[derive(Debug, Clone, Copy, PartialEq, Eq, Structural)]
pub enum BufferSizeJson {
    Default,
    Fixed { samples: u32 },
}

impl From<BufferSizeJson> for BufferSize {
    fn from(b: BufferSizeJson) -> (r: BufferSize) {
        match b {
            BufferSizeJson::Default => BufferSize::Default,
            BufferSizeJson::Fixed { samples } => BufferSize::Fixed(samples),
        }
    }
}

impl vstd::std_specs::convert::FromSpecImpl<BufferSizeJson> for BufferSize {
    open spec fn obeys_from_spec() -> bool {
        true
    }

    open spec fn from_spec(b: BufferSizeJson) -> BufferSize {
        match b {
            BufferSizeJson::Default => BufferSize::Default,
            BufferSizeJson::Fixed { samples } => BufferSize::Fixed(samples),
        }
    }
}

/// Arguments of starting a recording.
#[derive(Debug, Clone)]
pub struct StartArgs {
    pub device_id: String,
    pub sample_rate: u32,
    pub buffer_size: BufferSizeJson,
    pub channels: u16,
    /// Overwritten if it exists.
    pub output_path: String,
}

/// Result of starting a recording.
#[derive(Debug, Clone)]
pub struct StartResult {
    pub session_id: String,
    pub started_at_unix_seconds: u64,
}

/// Argument of the tools on a session.
#[derive(Debug, Clone)]
pub struct SessionArgs {
    pub session_id: String,
}

/// Result of `recording_stop`: a finished recording.
#[derive(Debug, Clone)]
pub struct RecordedClipJson {
    pub path: String,
    /// The clip's identifier.
    pub clip_uuid: String,
    pub sample_rate: u32,
    pub channels: u16,
    pub frame_count: u64,
    pub started_at_unix_seconds: u64,
    pub xrun_count: u32,
    pub dropped_samples: u64,
    /// Per-channel peak over the whole take, as bit patterns.
    pub peaks: Vec<u32>,
}

/// Result of cancelling a recording.
#[derive(Debug, Clone)]
pub struct CancelResult {
    pub path: String,
    /// Is the partial file gone?
    pub deleted: bool,
}

/// A recording's state.
#[derive(Debug, Clone, Copy, PartialEq, Eq, Structural)]
pub enum RecorderStateJson {
    Idle,
    Opening,
    Armed,
    Recording,
    Stopping,
    Cancelling,
    Closed,
    Errored,
}

impl From<RecorderState> for RecorderStateJson {
    fn from(s: RecorderState) -> (r: RecorderStateJson) {
        match s {
            RecorderState::Idle => RecorderStateJson::Idle,
            RecorderState::Opening => RecorderStateJson::Opening,
            RecorderState::Armed => RecorderStateJson::Armed,
            RecorderState::Recording => RecorderStateJson::Recording,
            RecorderState::Stopping => RecorderStateJson::Stopping,
            RecorderState::Cancelling => RecorderStateJson::Cancelling,
            RecorderState::Closed => RecorderStateJson::Closed,
            RecorderState::Errored => RecorderStateJson::Errored,
        }
    }
}

impl vstd::std_specs::convert::FromSpecImpl<RecorderState> for RecorderStateJson {
    open spec fn obeys_from_spec() -> bool {
        true
    }

    open spec fn from_spec(s: RecorderState) -> RecorderStateJson {
        match s {
            RecorderState::Idle => RecorderStateJson::Idle,
            RecorderState::Opening => RecorderStateJson::Opening,
            RecorderState::Armed => RecorderStateJson::Armed,
            RecorderState::Recording => RecorderStateJson::Recording,
            RecorderState::Stopping => RecorderStateJson::Stopping,
            RecorderState::Cancelling => RecorderStateJson::Cancelling,
            RecorderState::Closed => RecorderStateJson::Closed,
            RecorderState::Errored => RecorderStateJson::Errored,
        }
    }
}

/// Backends and states go over the wire as what they are.
pub proof fn law_wire_kinds(b: Backend, s: RecorderState)
    ensures
        backend_json(b) is Alsa <==> b is Alsa,
        backend_json(b) is PipeWire <==> b is PipeWire,
        backend_json(b) is Jack <==> b is Jack,
        backend_json(b) is CoreAudio <==> b is CoreAudio,
        backend_json(b) is Wasapi <==> b is Wasapi,
        backend_json(b) is Asio <==> b is Asio,
        b matches Backend::Other(name) ==> backend_json(b) == BackendJson::Other(name),
        ({
            let j = <RecorderStateJson as vstd::std_specs::convert::FromSpec<
                RecorderState,
            >>::from_spec(s);
            &&& j is Idle <==> s is Idle
            &&& j is Opening <==> s is Opening
            &&& j is Armed <==> s is Armed
            &&& j is Recording <==> s is Recording
            &&& j is Stopping <==> s is Stopping
            &&& j is Cancelling <==> s is Cancelling
            &&& j is Closed <==> s is Closed
            &&& j is Errored <==> s is Errored
        }),
{
}

/// Devices go over the wire with every field.
pub proof fn law_wire_devices(i: InputDeviceInfo, o: OutputDeviceInfo)
    ensures
        ({
            let j = <DeviceInfoJson as vstd::std_specs::convert::FromSpec<
                InputDeviceInfo,
            >>::from_spec(i);
            &&& j.device_id == i.id.0
            &&& j.name == i.name
            &&& j.is_default_input == i.is_default_input
            &&& j.is_class_compliant_usb == i.is_class_compliant_usb
            &&& j.max_input_channels == i.max_input_channels
        }),
        ({
            let j = <OutputDeviceInfoJson as vstd::std_specs::convert::FromSpec<
                OutputDeviceInfo,
            >>::from_spec(o);
            &&& j.device_id == o.id.0
            &&& j.name == o.name
            &&& j.is_default_output == o.is_default_output
            &&& j.max_output_channels == o.max_output_channels
        }),
{
}

/// Capabilities go over the wire with every field, each in its own place.
pub proof fn law_wire_capabilities(i: InputCapabilities, o: OutputCapabilities, b: BufferSizeJson)
    ensures
        ({
            let j = <CapabilitiesJson as vstd::std_specs::convert::FromSpec<
                InputCapabilities,
            >>::from_spec(i);
            &&& j.min_sample_rate == i.min_sample_rate
            &&& j.max_sample_rate == i.max_sample_rate
            &&& j.supported_sample_rates@ == i.supported_sample_rates@
            &&& j.min_buffer_size == i.min_buffer_size
            &&& j.max_buffer_size == i.max_buffer_size
            &&& j.channels@ == i.channels@
            &&& j.default_sample_rate == i.default_sample_rate
            &&& j.default_buffer_size == i.default_buffer_size
        }),
        ({
            let j = <CapabilitiesJson as vstd::std_specs::convert::FromSpec<
                OutputCapabilities,
            >>::from_spec(o);
            &&& j.min_sample_rate == o.min_sample_rate
            &&& j.max_sample_rate == o.max_sample_rate
            &&& j.supported_sample_rates@ == o.supported_sample_rates@
            &&& j.min_buffer_size == o.min_buffer_size
            &&& j.max_buffer_size == o.max_buffer_size
            &&& j.channels@ == o.channels@
            &&& j.default_sample_rate == o.default_sample_rate
            &&& j.default_buffer_size == o.default_buffer_size
        }),
        ({
            let s = <BufferSize as vstd::std_specs::convert::FromSpec<BufferSizeJson>>::from_spec(
                b,
            );
            &&& b is Default <==> s is Default
            &&& b matches BufferSizeJson::Fixed { samples } ==> s == BufferSize::Fixed(samples)
        }),
{
}

} // verus!
