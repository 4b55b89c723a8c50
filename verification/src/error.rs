//! What can go wrong with a statement, and what the engine said about it.

use vstd::prelude::*;

verus! {

/// The connection's diagnostic, read at the moment a call failed.
#[derive(Debug, Clone, PartialEq, Eq)]
pub struct Diagnostic {
    pub code: i32,
    pub message: String,
}

/// A failure of one operation on a statement. None is retried here.
#[derive(Debug, Clone, PartialEq, Eq)]
pub enum Error {
    /// The engine rejected the source text.
    Compile(Diagnostic),
    /// The engine rejected the value for the parameter at this 1-based index.
    Bind { index: usize, diagnostic: Diagnostic },
    /// The engine reported a fault while executing.
    Step(Diagnostic),
    /// The connection's worker is gone.
    WorkerUnavailable,
}

} // verus!
