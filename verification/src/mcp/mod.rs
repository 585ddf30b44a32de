//! The tool layer over the engines: wire types, the audio actor and its answers.
pub mod audio_actor;
pub mod handler;
pub mod types;

use vstd::prelude::*;
use vstd::string::*;

verus! {

/// Why a tool server ended.
#[derive(Debug)]
pub enum ServerError {
    Io(String),
    Rmcp(String),
    AudioThreadSpawn(String),
}

impl ServerError {
    /// The text of the error.
    pub open spec fn text(&self) -> Seq<char> {
        match self {
            ServerError::Io(m) => "io: "@ + m@,
            ServerError::Rmcp(m) => "rmcp: "@ + m@,
            ServerError::AudioThreadSpawn(m) => "audio-management thread spawn failed: "@ + m@,
        }
    }

    /// The text of the error.
    pub fn message(&self) -> (r: String)
        ensures
            r@ == self.text(),
    {
        match self {
            ServerError::Io(m) => "io: ".to_owned().concat(m.as_str()),
            ServerError::Rmcp(m) => "rmcp: ".to_owned().concat(m.as_str()),
            ServerError::AudioThreadSpawn(m) => {
                "audio-management thread spawn failed: ".to_owned().concat(m.as_str())
            },
        }
    }
}

} // verus!
