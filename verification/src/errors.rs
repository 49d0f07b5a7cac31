//! The error taxonomy: recoverable command-parse errors, and the
//! classification of a failed remote-API call.

use vstd::prelude::*;
use vstd::string::StringExecFns;

verus! {

/// This represents a command parsing error. Always recoverable: the
/// session reports it and keeps reading input.
#[derive(Debug, Clone, Copy, PartialEq, Eq, Structural)]
pub enum ParseError {
    CommandNotFound,
    BadArgument,
    MissingArgument,
}

impl ParseError {
    /// The user-facing description of this error.
    pub open spec fn spec_message(self) -> Seq<char> {
        match self {
            ParseError::CommandNotFound => "Parse error: command not found"@,
            ParseError::BadArgument => "Parse error: bad argument"@,
            ParseError::MissingArgument => "Parse error: missing argument"@,
        }
    }

    /// Renders the error for the user.
    pub fn message(&self) -> (m: String)
        ensures
            m@ == self.spec_message(),
    {
        match self {
            ParseError::CommandNotFound => String::from_str("Parse error: command not found"),
            ParseError::BadArgument => String::from_str("Parse error: bad argument"),
            ParseError::MissingArgument => String::from_str("Parse error: missing argument"),
        }
    }
}

/// Raised when a session cannot be built: neither the active profile nor
/// the one named `default` exists. Fatal at session construction.
#[derive(Debug, Clone, Copy, PartialEq, Eq, Structural)]
pub struct ProfileResolutionError;

impl ProfileResolutionError {
    /// The user-facing description of this error.
    pub open spec fn spec_message(self) -> Seq<char> {
        "Could not load any profile"@
    }

    /// Renders the error for the user.
    pub fn message(&self) -> (m: String)
        ensures
            m@ == self.spec_message(),
    {
        String::from_str("Could not load any profile")
    }
}

/// This represents an API error: the structured body a failed remote
/// call carries.
pub struct ApiErrorResponse {
    pub error: ApiError,
}

pub struct ApiError {
    pub code: u16,
    pub message: String,
    pub status: String,
    pub details: Option<Vec<ErrorDetail>>,
}

pub enum ErrorDetail {
    ErrorInfo { reason: String, domain: String, metadata: Vec<(String, String)> },
    LocalizedMessage { locale: String, message: String },
}

/// How a failed remote call was classified: its body decoded into the
/// structured shape, or could not be decoded, or the failure was of
/// some other kind entirely.
pub enum ApiFailure {
    Structured(ApiErrorResponse),
    Undecodable(String),
    Unknown,
}

impl ApiFailure {
    /// The one line shown to the user for this failure.
    pub open spec fn spec_diagnostic(self) -> Seq<char> {
        match self {
            ApiFailure::Structured(resp) => resp.error.message@,
            ApiFailure::Undecodable(text) => text@,
            ApiFailure::Unknown => "Unknown error."@,
        }
    }

    /// Renders the diagnostic for this failure: a well-formed structured
    /// body yields its own message, anything else a fixed report.
    pub fn diagnostic(&self) -> (m: String)
        ensures
            m@ == self.spec_diagnostic(),
    {
        match self {
            ApiFailure::Structured(resp) => resp.error.message.clone(),
            ApiFailure::Undecodable(text) => text.clone(),
            ApiFailure::Unknown => String::from_str("Unknown error."),
        }
    }
}

} // verus!
