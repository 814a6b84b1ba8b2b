//! The errors that end a run.

use vstd::prelude::*;

verus! {

/// What the object store can report in place of bytes.
#[derive(Clone, Copy, Debug, PartialEq, Eq, Structural)]
pub enum SourceFailure {
    /// The named object does not exist.
    NotFound,
    /// The caller may not read the object.
    AccessDenied,
    /// The connection broke, before or in the middle of the stream.
    Interrupted,
}

/// An error that ends the run: no summary is produced.
#[derive(Clone, Copy, Debug, PartialEq, Eq, Structural)]
pub enum FatalError {
    /// The named object does not exist.
    NotFound,
    /// The caller may not read the object.
    AccessDenied,
    /// The connection broke, before or in the middle of the stream.
    TransientIo,
    /// The compressed framing is invalid or ends before the frame does.
    CorruptStream,
    /// The object store answered without a body, or the body held no byte.
    EmptyBody,
}

/// The fatal error that a failure of the object store becomes.
pub open spec fn fatal_of(failure: SourceFailure) -> FatalError {
    match failure {
        SourceFailure::NotFound => FatalError::NotFound,
        SourceFailure::AccessDenied => FatalError::AccessDenied,
        SourceFailure::Interrupted => FatalError::TransientIo,
    }
}

impl FatalError {
    /// The fatal error that a failure of the object store becomes.
    pub fn from_source(failure: SourceFailure) -> (e: FatalError)
        ensures
            e == fatal_of(failure),
    {
        match failure {
            SourceFailure::NotFound => FatalError::NotFound,
            SourceFailure::AccessDenied => FatalError::AccessDenied,
            SourceFailure::Interrupted => FatalError::TransientIo,
        }
    }
}

} // verus!
