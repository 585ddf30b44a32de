//! The playback engine: from a WAV / RF64 file or a buffer to output buffers.
pub mod device;
pub mod file_source;
pub mod handle;
pub mod playback_laws;
pub mod reader;
pub mod rt;
pub mod signals;
pub mod source;
pub mod telemetry;
pub mod types;
pub mod wav;
