//! The engine process: its tools and what they answer.
pub mod handler;

pub use crate::mcp::ServerError;
