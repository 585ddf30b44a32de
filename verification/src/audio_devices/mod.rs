//! Device identities, capabilities and the device catalog that playback and
//! capture share.
pub mod capabilities;
pub mod catalog;
pub mod ids;
pub mod types;
