//! The closed set of failure kinds shared by every component of the library.

use vstd::prelude::*;

verus! {

/// Every fallible operation in this library reports exactly one of these
/// kinds. `Interrupted` and `NotReady` are transient, no-progress conditions
/// that the copy loops retry instead of surfacing; every other kind is
/// propagated to the caller unchanged.
#[derive(Clone, Debug, PartialEq, Eq)]
pub enum SyphonError {
    /// An operation was asked to act on a spec or stream with no
    /// determinable parameters.
    Empty,
    /// A partial spec lacks enough fields to be finalized or inferred.
    MissingData,
    /// Two stream specs that must be compatible are not.
    ParamMismatch,
    /// Two signal specs that must be compatible are not.
    SignalMismatch,
    /// A codec tag has no registered implementation for the requested
    /// operation.
    Unsupported,
    /// A transient, no-progress condition (e.g. signal interruption at the
    /// OS boundary); always safe to retry immediately.
    Interrupted,
    /// A transient, no-progress condition caused by backpressure; safe to
    /// retry, though a non-blocking caller should yield first.
    NotReady,
    /// The destination cannot accept more data, or the source produced
    /// fewer units than a fixed-duration copy required.
    OutOfBounds,
    /// The source explicitly signalled the end of its stream.
    EndOfStream,
    /// Catch-all for codec- or backend-specific failures.
    Other(String),
}

/// Holds exactly of the two kinds that the copy loops recover from locally.
pub open spec fn is_transient(e: SyphonError) -> bool {
    e is Interrupted || e is NotReady
}

impl SyphonError {
    /// Reports whether this error is a transient, retryable condition.
    pub fn transient(&self) -> (r: bool)
        ensures
            r == is_transient(*self),
    {
        match self {
            SyphonError::Interrupted => true,
            SyphonError::NotReady => true,
            _ => false,
        }
    }
}

} // verus!
