//! A minimal HTTP(S) GET client core, verified with Verus.
//!
//! The crate covers the three pieces of the protocol that carry all the
//! logic: decomposing a URL string into protocol, host, port and path with
//! scheme-aware defaults; serializing a [`Request`] onto an abstract byte
//! channel; and decomposing raw response text into a categorized status,
//! headers and body. Obtaining a connected channel (plain or TLS-wrapped
//! socket) is the transport collaborator's job and lives outside this
//! library; the core only asks for something that can be written to and read
//! to end-of-input.
use vstd::prelude::*;

pub mod errors;
pub mod headers;
pub mod http;
pub mod request;
pub mod response;
pub mod stream;
pub mod strutil;
pub mod url;

pub use errors::{ErrorKind, NanoGetError};
pub use request::{Header, Request};
pub use response::{Response, ResponseStatus, StatusCode};
pub use url::{ToUrl, Url};

verus! {

} // verus!
