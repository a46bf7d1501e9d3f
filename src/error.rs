use vstd::prelude::*;

verus! {

/// The coarse kind of a failure reported by a fallible entry point.
#[derive(Clone, Copy, Debug, PartialEq, Eq, Structural)]
pub enum ErrorKind {
    /// The source of randomness is not available on this platform or right now.
    Unavailable,
    /// The source failed in a way that was not expected.
    Unexpected,
    /// A transient failure: retrying may succeed.
    Transient,
    /// The source is not ready yet: retrying later may succeed.
    NotReady,
    /// The source does not support the operation asked of it.
    Unsupported,
}

/// A failure of a bit source or of seeding: a kind plus an optional OS error code.
#[derive(Clone, Copy, Debug, PartialEq, Eq, Structural)]
pub struct Error {
    pub kind: ErrorKind,
    pub code: Option<i32>,
}

impl ErrorKind {
    /// Whether retrying the failed operation may succeed.
    pub fn should_retry(self) -> (r: bool)
        ensures
            r == (self == ErrorKind::Transient || self == ErrorKind::NotReady),
    {
        match self {
            ErrorKind::Transient | ErrorKind::NotReady => true,
            _ => false,
        }
    }
}

impl Error {
    /// A failure of the given kind, with no OS error code.
    pub fn new(kind: ErrorKind) -> (r: Error)
        ensures
            r.kind == kind,
            r.code is None,
    {
        Error { kind, code: None }
    }
}

} // verus!
