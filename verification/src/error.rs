//! The closed error taxonomy of the client.  Every failing operation
//! returns exactly one of these classifications to its caller; nothing is
//! retried or swallowed.

use vstd::prelude::*;

verus! {

/// A classified failure of a client operation.
#[derive(Debug, Clone)]
pub enum Error {
    /// Credentials were available neither explicitly nor from the
    /// environment.
    Configuration,
    /// A typed request object could not be encoded to a query string or
    /// body.
    Serialization { detail: String },
    /// A transport-level failure (DNS, TLS, socket), never classified by
    /// status code.
    Connection { detail: String },
    /// A response with a status outside the success range.  Carries the
    /// status, the response body decoded leniently as text, and the signed
    /// request URL, to help diagnose signature rejections.
    Server { status: u16, reason: String, url: String },
    /// A success response whose body did not match the expected shape.
    Deserialization { detail: String },
}

impl Error {
    /// Builds a server error from a status code, response text and
    /// request URL.
    pub fn server_error(status: u16, reason: String, url: String) -> (r: Error)
        ensures
            r == (Error::Server { status, reason, url }),
    {
        Error::Server { status, reason, url }
    }

    /// True for the server-error classification.
    pub fn is_server_error(&self) -> (r: bool)
        ensures
            r == (self is Server),
    {
        match self {
            Error::Server { .. } => true,
            _ => false,
        }
    }
}

} // verus!
