//! The conditions that end the handling of a connection without a response.

use vstd::prelude::*;

verus! {

/// Why a connection is dropped without a response being sent.
#[derive(Clone, Copy, Debug, PartialEq, Eq, Structural)]
pub enum ConnectionError {
    /// The request line holds fewer than two tokens.
    MalformedRequestLine,
    /// The user-agent route was asked for without a `User-Agent` header.
    MissingUserAgent,
    /// The uploaded file could not be written.
    WriteFailed,
}

impl ConnectionError {
    /// A short description of the error, for logs.
    pub fn message(&self) -> (text: &'static str)
        ensures
            text@ == match *self {
                ConnectionError::MalformedRequestLine => "Failed to parse request line"@,
                ConnectionError::MissingUserAgent => "Failed to get user agent line"@,
                ConnectionError::WriteFailed => "Failed to write file"@,
            },
    {
        match self {
            ConnectionError::MalformedRequestLine => "Failed to parse request line",
            ConnectionError::MissingUserAgent => "Failed to get user agent line",
            ConnectionError::WriteFailed => "Failed to write file",
        }
    }
}

} // verus!
