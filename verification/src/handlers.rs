//! Command handling: the input-mode classification shared by the whole
//! client, and the error taxonomy of the command handlers.

pub mod ai;
pub mod bash;
pub mod command;

use crate::ai::types::AIError;
use vstd::prelude::*;
use vstd::string::StringExecFns;

verus! {

/// Command mode type.
#[derive(Debug, Clone, PartialEq, Eq, Structural)]
pub enum CommandMode {
    /// AI mode for LLM interactions.
    AI,
    /// Bash mode for shell commands.
    Bash,
    /// Command mode for application commands.
    Command,
}

impl CommandMode {
    /// The short display label of the mode.
    pub open spec fn spec_name(self) -> Seq<char> {
        match self {
            CommandMode::AI => "AI"@,
            CommandMode::Bash => "BASH"@,
            CommandMode::Command => "CMD"@,
        }
    }

    /// Human-readable mode label.
    pub fn name(&self) -> (r: String)
        ensures
            r@ == self.spec_name(),
    {
        match self {
            CommandMode::AI => String::from_str("AI"),
            CommandMode::Bash => String::from_str("BASH"),
            CommandMode::Command => String::from_str("CMD"),
        }
    }
}

/// Result type for handlers.
pub type HandlerResult<T> = Result<T, HandlerError>;

/// Error types that can occur during command handling.
#[derive(Debug)]
pub enum HandlerError {
    /// AI-related errors.
    AI(AIError),
    /// Bash execution errors.
    Bash(String),
    /// Command parsing errors.
    Parse(String),
    /// Other errors.
    Other(String),
}

impl HandlerError {
    /// The full display text of the error.
    pub open spec fn spec_message(self) -> Seq<char> {
        match self {
            HandlerError::AI(e) => "AI error: "@ + e.spec_message(),
            HandlerError::Bash(e) => "Bash error: "@ + e@,
            HandlerError::Parse(e) => "Parse error: "@ + e@,
            HandlerError::Other(e) => e@,
        }
    }

    /// Human-readable error text.
    pub fn message(&self) -> (r: String)
        ensures
            r@ == self.spec_message(),
    {
        match self {
            HandlerError::AI(e) => {
                let mut s = String::from_str("AI error: ");
                let inner = e.message();
                s.append(inner.as_str());
                s
            },
            HandlerError::Bash(e) => {
                let mut s = String::from_str("Bash error: ");
                s.append(e.as_str());
                s
            },
            HandlerError::Parse(e) => {
                let mut s = String::from_str("Parse error: ");
                s.append(e.as_str());
                s
            },
            HandlerError::Other(e) => e.clone(),
        }
    }
}

impl From<AIError> for HandlerError {
    /// Wrap an AI error in the handler error taxonomy.
    fn from(err: AIError) -> (r: Self) {
        HandlerError::AI(err)
    }
}

impl vstd::std_specs::convert::FromSpecImpl<AIError> for HandlerError {
    open spec fn obeys_from_spec() -> bool {
        true
    }

    open spec fn from_spec(t: AIError) -> Self {
        HandlerError::AI(t)
    }
}

} // verus!
