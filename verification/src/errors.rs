//! Error values surfaced by the client.
use vstd::prelude::*;

verus! {

/// The classes of failure the client distinguishes.
///
/// `ParseError` marks a URL that is malformed beyond recovery (for instance an
/// empty host where a transport needs one); `NetworkError` marks a stream
/// write or read failure; `HttpMethodError` is reserved for future method
/// validation; `HttpsSslError` marks a failure to establish the secured
/// transport; `Default` is the catch-all.
#[derive(Clone, Copy, Debug, PartialEq, Eq, Structural)]
pub enum ErrorKind {
    Default,
    ParseError,
    NetworkError,
    HttpMethodError,
    HttpsSslError,
}

/// The error type returned by the client's fallible operations.
#[derive(Clone, Copy, Debug)]
pub struct NanoGetError {
    kind: ErrorKind,
}

impl View for NanoGetError {
    type V = ErrorKind;

    closed spec fn view(&self) -> ErrorKind {
        self.kind
    }
}

impl NanoGetError {
    /// Wraps a failure class in an error value.
    pub fn new(kind: ErrorKind) -> (r: Self)
        ensures
            r@ == kind,
    {
        NanoGetError { kind }
    }

    /// Reports which class of failure this error carries.
    pub fn kind(&self) -> (k: ErrorKind)
        ensures
            k == self@,
    {
        self.kind
    }
}

} // verus!
