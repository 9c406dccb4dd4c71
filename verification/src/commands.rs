//! The command table: a fixed set of named handlers over canned content, and
//! the dispatcher that trims, tokenizes and routes one input line.

pub mod system;
pub mod filesystem;
pub mod misc;
pub mod network;
pub mod processor;

use vstd::prelude::*;

verus! {

/// The tagged result of dispatching one command line. Control effects are
/// their own variants, so output text can never be mistaken for them.
pub enum CommandResult {
    /// Plain output to append to the buffer.
    Text(String),
    /// Clear the screen instead of printing.
    ClearScreen,
    /// Run the panic animation instead of printing.
    SystemPanic,
    /// The working directory changed; the caller refreshes the prompt.
    DirectoryChanged,
}

} // verus!
