//! The failures that request handling reports.

use vstd::prelude::*;
use vstd::string::*;

verus! {

#[verifier::external_type_specification]
#[verifier::external_body]
pub struct ExInvalidUri(http::uri::InvalidUri);

/// A failure of request handling.
#[derive(Debug)]
pub enum ServerError {
    /// A failure described in words, such as a fetch that ran out of tries.
    StringError(String),
    /// An upstream address that is no valid URI.
    InvalidUri(http::uri::InvalidUri),
}

/// `http::uri::InvalidUri` shown through its `Display` impl.  Nothing is
/// claimed of the words it gives.
#[verifier::external_body]
fn invalid_uri_words(e: &http::uri::InvalidUri) -> (r: String) {
    format!("{}", e)
}

impl ServerError {
    /// The failure in words: a `StringError` gives its own text.
    pub fn description(&self) -> (r: String)
        ensures
            self matches ServerError::StringError(s) ==> r@ == s@,
    {
        match self {
            ServerError::StringError(s) => s.clone(),
            ServerError::InvalidUri(e) => invalid_uri_words(e),
        }
    }

    /// A failure described by `error`.
    pub fn from_string(error: String) -> (r: ServerError)
        ensures
            r == ServerError::StringError(error),
    {
        ServerError::StringError(error)
    }

    /// The failure of parsing an address.
    pub fn from_invalid_uri(error: http::uri::InvalidUri) -> (r: ServerError)
        ensures
            r == ServerError::InvalidUri(error),
    {
        ServerError::InvalidUri(error)
    }
}

} // verus!
