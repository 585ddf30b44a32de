//! How the engine process is launched.
use crate::strings::{pieces, split, texts};
use vstd::prelude::*;
use vstd::string::*;

verus! {

/// A program, its arguments and its working directory.
#[derive(Debug, Clone)]
pub struct EngineCommand {
    pub program: String,
    pub args: Vec<String>,
    pub cwd: Option<String>,
}

/// The arguments by which the engine is run from its workspace.
pub open spec fn default_args() -> Seq<Seq<char>> {
    seq!["run"@, "-q"@, "-p"@, "octave-engine"@]
}

impl EngineCommand {
    /// The command for development, with overrides: the program in place of
    /// `cargo`, a comma-separated list in place of the arguments, and a working
    /// directory.
    pub fn default_dev(program: Option<String>, args: Option<String>, cwd: Option<String>) -> (r:
        EngineCommand)
        ensures
            match program {
                Some(p) => r.program == p,
                None => r.program@ == "cargo"@,
            },
            texts(r.args@) == match args {
                Some(a) => pieces(a@, ','),
                None => default_args(),
            },
            r.cwd == cwd,
    {
        let program: String = match program {
            Some(p) => p,
            None => "cargo".to_owned(),
        };
        let args: Vec<String> = match args {
            Some(a) => split(a.as_str(), ','),
            None => {
                let mut v: Vec<String> = Vec::new();
                v.push("run".to_owned());
                v.push("-q".to_owned());
                v.push("-p".to_owned());
                v.push("octave-engine".to_owned());
                proof {
                    assert(texts(v@) =~= default_args());
                }
                v
            },
        };
        EngineCommand { program, args, cwd }
    }
}

} // verus!
