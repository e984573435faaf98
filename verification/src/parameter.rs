//! What the user asked for on the command line.

use vstd::prelude::*;

verus! {

/// The command line, parsed. A value that is given here goes before the one
/// in the configuration.
#[derive(Debug, PartialEq, Eq)]
pub struct Parameter {
    /// The question, where it was given as an argument.
    pub query: Option<String>,
    /// The system prompt.
    pub prompt: Option<String>,
    /// The request timeout, in seconds.
    pub timeout: Option<u64>,
    /// Whether to keep asking for questions until told to stop.
    pub interactive: bool,
    /// The name of the model to talk to.
    pub model: Option<String>,
    /// Whether to ask for a streamed response.
    pub stream: bool,
}

} // verus!
