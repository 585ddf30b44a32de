//! The intent layer: application state, its rules, and what each tool does with
//! it.
pub mod engine_command;
pub mod mono_fold;
pub mod server;
pub mod state;

use vstd::prelude::*;
use vstd::string::*;

verus! {

/// Why the handler ended.
#[derive(Debug)]
pub enum HandlerError {
    Io(String),
    Rmcp(String),
    EngineSpawn(String),
}

impl HandlerError {
    /// The text of the error.
    pub open spec fn text(&self) -> Seq<char> {
        match self {
            HandlerError::Io(m) => "io: "@ + m@,
            HandlerError::Rmcp(m) => "rmcp: "@ + m@,
            HandlerError::EngineSpawn(m) => "engine spawn failed: "@ + m@,
        }
    }

    /// The text of the error.
    pub fn message(&self) -> (r: String)
        ensures
            r@ == self.text(),
    {
        match self {
            HandlerError::Io(m) => "io: ".to_owned().concat(m.as_str()),
            HandlerError::Rmcp(m) => "rmcp: ".to_owned().concat(m.as_str()),
            HandlerError::EngineSpawn(m) => "engine spawn failed: ".to_owned().concat(m.as_str()),
        }
    }
}

} // verus!
