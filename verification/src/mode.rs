//! The input modes of the standalone command-line front end and its
//! per-mode handlers.

pub mod ai;
pub mod bash;
pub mod command;

use vstd::prelude::*;
use vstd::string::StringExecFns;

verus! {

/// The mode a typed line is handled in.
#[derive(Debug, Clone, PartialEq, Eq, Structural)]
pub enum CommandMode {
    /// A prompt for the language model.
    AI,
    /// A shell command.
    Bash,
    /// An application command.
    Command,
}

impl CommandMode {
    /// The short display label of the mode.
    pub open spec fn spec_name(self) -> Seq<char> {
        match self {
            CommandMode::AI => "AI"@,
            CommandMode::Bash => "BASH"@,
            CommandMode::Command => "CMD"@,
        }
    }

    /// Human-readable mode label.
    pub fn name(&self) -> (r: String)
        ensures
            r@ == self.spec_name(),
    {
        match self {
            CommandMode::AI => String::from_str("AI"),
            CommandMode::Bash => String::from_str("BASH"),
            CommandMode::Command => String::from_str("CMD"),
        }
    }
}

} // verus!
