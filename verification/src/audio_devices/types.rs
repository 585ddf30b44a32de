//! What is known of an audio device.
use crate::text::{debug_quoted, quoted};
use vstd::prelude::*;
use vstd::string::*;

verus! {

/// Platform-stable identifier of an audio device: its host's name, a colon and
/// its own name.
#[derive(Debug, Clone, PartialEq, Eq, Hash)]
pub struct DeviceId(pub String);

impl View for DeviceId {
    type V = Seq<char>;

    open spec fn view(&self) -> Seq<char> {
        self.0@
    }
}

impl DeviceId {
    /// A copy.
    pub fn copied(&self) -> (r: DeviceId)
        ensures
            r == *self,
    {
        DeviceId(self.0.clone())
    }

    /// Are two identifiers the same?
    pub fn same(&self, other: &DeviceId) -> (r: bool)
        ensures
            r == (self@ == other@),
    {
        self.0 == other.0
    }
}

/// The audio backend that a device is exposed through. `PipeWire` is reserved:
/// it is reached through ALSA today. `Other` carries the name of a host that is
/// not listed.
#[derive(Debug, Clone, PartialEq, Eq)]
pub enum Backend {
    Alsa,
    PipeWire,
    Jack,
    CoreAudio,
    Wasapi,
    Asio,
    Other(String),
}

/// A [`Backend`] with its text as a sequence.
pub enum BackendKind {
    Alsa,
    PipeWire,
    Jack,
    CoreAudio,
    Wasapi,
    Asio,
    Other(Seq<char>),
}

impl View for Backend {
    type V = BackendKind;

    open spec fn view(&self) -> BackendKind {
        match self {
            Backend::Alsa => BackendKind::Alsa,
            Backend::PipeWire => BackendKind::PipeWire,
            Backend::Jack => BackendKind::Jack,
            Backend::CoreAudio => BackendKind::CoreAudio,
            Backend::Wasapi => BackendKind::Wasapi,
            Backend::Asio => BackendKind::Asio,
            Backend::Other(name) => BackendKind::Other(name@),
        }
    }
}

impl Backend {
    /// A copy.
    pub fn copied(&self) -> (r: Backend)
        ensures
            r == *self,
    {
        match self {
            Backend::Alsa => Backend::Alsa,
            Backend::PipeWire => Backend::PipeWire,
            Backend::Jack => Backend::Jack,
            Backend::CoreAudio => Backend::CoreAudio,
            Backend::Wasapi => Backend::Wasapi,
            Backend::Asio => Backend::Asio,
            Backend::Other(name) => Backend::Other(name.clone()),
        }
    }
}

/// Buffer size asked for when a stream is built: the backend's choice, or a
/// number of frames.
#[derive(Debug, Clone, Copy, PartialEq, Eq, Structural)]
pub enum BufferSize {
    Default,
    Fixed(u32),
}

/// The playback side of a device.
#[derive(Debug, Clone)]
pub struct OutputDeviceInfo {
    pub id: DeviceId,
    pub name: String,
    pub backend: Backend,
    pub is_default_output: bool,
    pub max_output_channels: u16,
}

/// The capture side of a device.
#[derive(Debug, Clone)]
pub struct InputDeviceInfo {
    pub id: DeviceId,
    pub name: String,
    pub backend: Backend,
    pub is_default_input: bool,
    /// Not detected today: always `false`.
    pub is_class_compliant_usb: bool,
    pub max_input_channels: u16,
}

/// An [`OutputDeviceInfo`] or [`InputDeviceInfo`] with its texts as sequences.
pub struct InfoView {
    pub id: Seq<char>,
    pub name: Seq<char>,
    pub backend: BackendKind,
    pub is_default: bool,
    pub is_class_compliant_usb: bool,
    pub max_channels: u16,
}

impl View for OutputDeviceInfo {
    type V = InfoView;

    open spec fn view(&self) -> InfoView {
        InfoView {
            id: self.id@,
            name: self.name@,
            backend: self.backend@,
            is_default: self.is_default_output,
            is_class_compliant_usb: false,
            max_channels: self.max_output_channels,
        }
    }
}

impl View for InputDeviceInfo {
    type V = InfoView;

    open spec fn view(&self) -> InfoView {
        InfoView {
            id: self.id@,
            name: self.name@,
            backend: self.backend@,
            is_default: self.is_default_input,
            is_class_compliant_usb: self.is_class_compliant_usb,
            max_channels: self.max_input_channels,
        }
    }
}

impl OutputDeviceInfo {
    /// A copy.
    pub fn copied(&self) -> (r: OutputDeviceInfo)
        ensures
            r == *self,
    {
        OutputDeviceInfo {
            id: self.id.copied(),
            name: self.name.clone(),
            backend: self.backend.copied(),
            is_default_output: self.is_default_output,
            max_output_channels: self.max_output_channels,
        }
    }
}

impl InputDeviceInfo {
    /// A copy.
    pub fn copied(&self) -> (r: InputDeviceInfo)
        ensures
            r == *self,
    {
        InputDeviceInfo {
            id: self.id.copied(),
            name: self.name.clone(),
            backend: self.backend.copied(),
            is_default_input: self.is_default_input,
            is_class_compliant_usb: self.is_class_compliant_usb,
            max_input_channels: self.max_input_channels,
        }
    }
}

/// What a device can play.
#[derive(Debug, Clone)]
pub struct OutputCapabilities {
    pub min_sample_rate: u32,
    pub max_sample_rate: u32,
    pub supported_sample_rates: Vec<u32>,
    pub min_buffer_size: u32,
    pub max_buffer_size: u32,
    pub channels: Vec<u16>,
    pub default_sample_rate: u32,
    pub default_buffer_size: u32,
}

/// What a device can capture.
#[derive(Debug, Clone)]
pub struct InputCapabilities {
    pub min_sample_rate: u32,
    pub max_sample_rate: u32,
    pub supported_sample_rates: Vec<u32>,
    pub min_buffer_size: u32,
    pub max_buffer_size: u32,
    pub channels: Vec<u16>,
    pub default_sample_rate: u32,
    pub default_buffer_size: u32,
}

/// Why a device or its capabilities could not be had.
#[derive(Debug)]
pub enum DeviceError {
    DeviceNotFound { id: DeviceId },
    BackendError(String),
}

/// A [`DeviceError`] with its texts as sequences.
pub enum DeviceFault {
    DeviceNotFound { id: Seq<char> },
    BackendError(Seq<char>),
}

impl View for DeviceError {
    type V = DeviceFault;

    open spec fn view(&self) -> DeviceFault {
        match self {
            DeviceError::DeviceNotFound { id } => DeviceFault::DeviceNotFound { id: id@ },
            DeviceError::BackendError(m) => DeviceFault::BackendError(m@),
        }
    }
}

impl DeviceError {
    /// The text of the error.
    pub open spec fn text(&self) -> Seq<char> {
        match self {
            DeviceError::DeviceNotFound { id } => "device not found: DeviceId("@ + debug_quoted(
                id@,
            ) + ")"@,
            DeviceError::BackendError(m) => "backend error: "@ + m@,
        }
    }

    /// The text of the error.
    pub fn message(&self) -> (r: String)
        ensures
            r@ == self.text(),
    {
        match self {
            DeviceError::DeviceNotFound { id } => {
                let mut s: String = "device not found: DeviceId(".to_owned();
                let q: String = quoted(id.0.as_str());
                s.append(q.as_str());
                s.append(")");
                s
            },
            DeviceError::BackendError(m) => "backend error: ".to_owned().concat(m.as_str()),
        }
    }
}

/// What is known of a device is what its fields hold; a playback side is never marked
/// as class-compliant.
pub proof fn law_views_hold_the_fields(o: OutputDeviceInfo, i: InputDeviceInfo, e: DeviceError)
    ensures
        o@.id == o.id.0@,
        o@.name == o.name@,
        o@.is_default == o.is_default_output,
        o@.max_channels == o.max_output_channels,
        !o@.is_class_compliant_usb,
        o@.backend == o.backend@,
        i@.id == i.id.0@,
        i@.name == i.name@,
        i@.is_default == i.is_default_input,
        i@.max_channels == i.max_input_channels,
        i@.is_class_compliant_usb == i.is_class_compliant_usb,
        i@.backend == i.backend@,
        e matches DeviceError::BackendError(m) ==> e@ == DeviceFault::BackendError(m@),
        e matches DeviceError::DeviceNotFound { id } ==> e@ == (DeviceFault::DeviceNotFound {
            id: id.0@,
        }),
{
}

/// A backend keeps its kind, and one that is not listed its name.
pub proof fn law_backend_views_keep_their_kind(b: Backend)
    ensures
        b@ is Alsa <==> b is Alsa,
        b@ is PipeWire <==> b is PipeWire,
        b@ is Jack <==> b is Jack,
        b@ is CoreAudio <==> b is CoreAudio,
        b@ is Wasapi <==> b is Wasapi,
        b@ is Asio <==> b is Asio,
        b matches Backend::Other(name) ==> b@ == BackendKind::Other(name@),
{
}

} // verus!
