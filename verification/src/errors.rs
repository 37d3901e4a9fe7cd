//! Error types for the library.

use vstd::prelude::*;

verus! {

/// Core library error type.
#[derive(Debug, Clone)]
pub enum CoreError {
    /// A configuration-related error.
    Config(String),
    /// A path resolution or validation error.
    Path(String),
    /// An I/O error, carried as its description.
    Io(String),
    /// A serialization or deserialization error.
    Serialization(String),
    /// An authentication or secret-related error.
    Auth(String),
    /// A secret not found error.
    SecretNotFound(String),
    /// An API or HTTP error.
    Api(String),
    /// A generic error for other cases.
    Other(String),
}

impl CoreError {
    /// One-line description of the error, in the shape `kind: detail`.
    pub fn message(&self) -> (r: String)
        ensures
            r@ == self.spec_message(),
    {
        match self {
            CoreError::Config(s) => String::from_str("configuration error: ").concat(s.as_str()),
            CoreError::Path(s) => String::from_str("path error: ").concat(s.as_str()),
            CoreError::Io(s) => String::from_str("IO error: ").concat(s.as_str()),
            CoreError::Serialization(s) => String::from_str("serialization error: ").concat(
                s.as_str(),
            ),
            CoreError::Auth(s) => String::from_str("authentication error: ").concat(s.as_str()),
            CoreError::SecretNotFound(s) => String::from_str("secret not found: ").concat(
                s.as_str(),
            ),
            CoreError::Api(s) => String::from_str("API error: ").concat(s.as_str()),
            CoreError::Other(s) => String::from_str("error: ").concat(s.as_str()),
        }
    }

    /// The description `message` returns, as a sequence of characters.
    pub open spec fn spec_message(&self) -> Seq<char> {
        match self {
            CoreError::Config(s) => "configuration error: "@ + s@,
            CoreError::Path(s) => "path error: "@ + s@,
            CoreError::Io(s) => "IO error: "@ + s@,
            CoreError::Serialization(s) => "serialization error: "@ + s@,
            CoreError::Auth(s) => "authentication error: "@ + s@,
            CoreError::SecretNotFound(s) => "secret not found: "@ + s@,
            CoreError::Api(s) => "API error: "@ + s@,
            CoreError::Other(s) => "error: "@ + s@,
        }
    }
}

/// Errors that can occur during authentication.
#[derive(Debug, Clone)]
pub enum AuthenticationError {
    /// Token extraction failed.
    TokenExtractionError(String),
    /// Token storage error.
    StorageError(CoreError),
    /// JWT parsing error.
    JwtError(String),
}

impl AuthenticationError {
    /// One-line description of the error.
    pub fn message(&self) -> (r: String)
        ensures
            r@ == self.spec_message(),
    {
        match self {
            AuthenticationError::TokenExtractionError(s) => String::from_str(
                "token extraction failed: ",
            ).concat(s.as_str()),
            AuthenticationError::StorageError(e) => String::from_str("token storage error: ")
                .concat(e.message().as_str()),
            AuthenticationError::JwtError(s) => String::from_str("JWT parsing error: ").concat(
                s.as_str(),
            ),
        }
    }

    /// The description `message` returns, as a sequence of characters.
    pub open spec fn spec_message(&self) -> Seq<char> {
        match self {
            AuthenticationError::TokenExtractionError(s) => "token extraction failed: "@ + s@,
            AuthenticationError::StorageError(e) => "token storage error: "@ + e.spec_message(),
            AuthenticationError::JwtError(s) => "JWT parsing error: "@ + s@,
        }
    }
}

} // verus!
