//! The byte-channel seam between the protocol core and its transport.
//!
//! The core only asks for something it can write text to and read to
//! end-of-input from: a connected socket, a TLS-wrapped socket, or an
//! in-memory buffer all fit. One call owns its channel for the whole
//! request/response round trip, matching the `connection: close` contract.
use vstd::prelude::*;

use crate::errors::{ErrorKind, NanoGetError};

verus! {

/// A sequential channel: write text, then read the reply to end-of-input.
///
/// `written` is the text successfully written so far. A failed write
/// leaves the channel in an unspecified written state and surfaces as a
/// `NetworkError`; reading never changes what was written.
pub trait HttpStream {
    /// The text successfully written to the channel so far.
    spec fn written(&self) -> Seq<char>;

    /// Writes the whole of `data` to the channel.
    fn write_all_str(&mut self, data: &str) -> (r: Result<(), NanoGetError>)
        ensures
            r is Ok ==> final(self).written() == old(self).written() + data@,
            r is Err ==> r->Err_0@ == ErrorKind::NetworkError,
    ;

    /// Reads the channel's reply up to end-of-input.
    fn read_to_end_string(&mut self) -> (r: Result<String, NanoGetError>)
        ensures
            final(self).written() == old(self).written(),
            r is Err ==> r->Err_0@ == ErrorKind::NetworkError,
    ;
}

/// An in-memory channel: writes collect into a buffer, reading yields a
/// preloaded reply. A channel can also be made to refuse writes, to
/// exercise the failure paths.
pub struct MemoryStream {
    sent: String,
    input: String,
    refuse_writes: bool,
}

impl MemoryStream {
    /// The reply the channel will yield when read.
    pub closed spec fn response_text(&self) -> Seq<char> {
        self.input@
    }

    /// Whether the channel refuses writes.
    pub closed spec fn refuses_writes(&self) -> bool {
        self.refuse_writes
    }

    /// A channel that accepts writes and will yield `input` when read.
    pub fn new(input: String) -> (r: Self)
        ensures
            r.written() == Seq::<char>::empty(),
            r.response_text() == input@,
            !r.refuses_writes(),
    {
        MemoryStream { sent: String::new(), input, refuse_writes: false }
    }

    /// A channel whose every write fails, as a broken transport's would.
    pub fn new_failing() -> (r: Self)
        ensures
            r.written() == Seq::<char>::empty(),
            r.refuses_writes(),
    {
        MemoryStream { sent: String::new(), input: String::new(), refuse_writes: true }
    }

    /// The text written to the channel so far.
    pub fn get_written(&self) -> (r: String)
        ensures
            r@ == self.written(),
    {
        self.sent.clone()
    }
}

impl HttpStream for MemoryStream {
    closed spec fn written(&self) -> Seq<char> {
        self.sent@
    }

    fn write_all_str(&mut self, data: &str) -> (r: Result<(), NanoGetError>)
        ensures
            r is Ok <==> !old(self).refuses_writes(),
            final(self).response_text() == old(self).response_text(),
            final(self).refuses_writes() == old(self).refuses_writes(),
            r is Err ==> final(self).written() == old(self).written(),
    {
        if self.refuse_writes {
            Err(NanoGetError::new(ErrorKind::NetworkError))
        } else {
            self.sent.append(data);
            Ok(())
        }
    }

    fn read_to_end_string(&mut self) -> (r: Result<String, NanoGetError>)
        ensures
            *final(self) == *old(self),
            r is Ok,
            r->Ok_0@ == old(self).response_text(),
    {
        Ok(self.input.clone())
    }
}

} // verus!
