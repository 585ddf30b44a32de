//! The desktop shell: its audio actor and what its commands decide.
pub mod app_actor;
pub mod devices;
