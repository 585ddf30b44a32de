//! Octave: audio capture to 32-bit float WAV / RF64, playback of the same
//! files, and the session, device and tool-call rules around both.
//!
//! Samples travel through the library as `u32` bit patterns of IEEE-754
//! single-precision floats. Everything the engines decide about a sample (is it
//! finite, how large is its magnitude, where does it go) is a fact about its
//! bits; see [`samples`].

pub mod audio_devices;
pub mod bytes;
pub mod engine;
pub mod frames;
pub mod handler;
pub mod ids;
pub mod mcp;
pub mod meter;
pub mod player;
pub mod recorder;
pub mod ring;
pub mod samples;
pub mod shell;
pub mod strings;
pub mod text;
pub mod tools;
