//! What comes back from the sandboxed code runner.
//!
//! The runner itself is an outside collaborator, consumed through a narrow
//! contract: it takes a language, a source text and arguments, and yields
//! this output. Nothing here executes anything.

use vstd::prelude::*;

verus! {

/// The outcome of one sandboxed run.
#[derive(Debug, Clone)]
pub struct RunOutput {
    /// What the program wrote to standard output.
    pub stdout: String,
    /// What the program wrote to standard error.
    pub stderr: String,
    /// How long the run took, in milliseconds.
    pub runtime: u64,
    /// The program's exit code.
    pub exit_code: i32,
}

impl RunOutput {
    /// Whether the run exited cleanly.
    pub fn success(&self) -> (r: bool)
        ensures
            r == (self.exit_code == 0),
    {
        self.exit_code == 0
    }
}

} // verus!
