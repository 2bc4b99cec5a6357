//! The framework's error type.

use vstd::prelude::*;

verus! {

/// `std::io::Error`, carried through when reading or writing a connection fails.
#[verifier::external_type_specification]
#[verifier::external_body]
pub struct ExIoError(std::io::Error);

/// `serde_json::Error`, carried through when a JSON body cannot be read or written.
#[verifier::external_type_specification]
#[verifier::external_body]
pub struct ExJsonError(serde_json::Error);

/// The framework's errors, each with its message.
#[derive(Debug)]
pub enum FastError {
    Config(String),
    Http(String),
    Database(String),
    NotFound(String),
    Validation(String),
    Unauthorized(String),
    Io(std::io::Error),
    Json(serde_json::Error),
    Internal(String),
}

/// A result whose error is a `FastError`.
pub type Result<T> = core::result::Result<T, FastError>;

/// An HTTP error with the given message.
pub open spec fn is_http_error(e: FastError, msg: Seq<char>) -> bool {
    e matches FastError::Http(m) && m@ == msg
}

/// An `Unauthorized` error with the given message.
pub open spec fn is_unauthorized(e: FastError, msg: Seq<char>) -> bool {
    e matches FastError::Unauthorized(m) && m@ == msg
}

/// A `Validation` error with the given message.
pub open spec fn is_validation(e: FastError, msg: Seq<char>) -> bool {
    e matches FastError::Validation(m) && m@ == msg
}

/// An error with a message from the given literal.
pub fn http_error(msg: &str) -> (e: FastError)
    ensures
        is_http_error(e, msg@),
{
    FastError::Http(msg.to_string())
}

/// The `Display` text of an I/O error (`ToString::to_string`). Nothing is
/// claimed of the text.
#[verifier::external_body]
fn io_error_text(e: &std::io::Error) -> String {
    e.to_string()
}

/// The `Display` text of a JSON error (`ToString::to_string`). Nothing is
/// claimed of the text.
#[verifier::external_body]
fn json_error_text(e: &serde_json::Error) -> String {
    e.to_string()
}

/// The text that an error's message follows.
pub open spec fn error_prefix(e: FastError) -> Seq<char> {
    match e {
        FastError::Config(_) => "Config error: "@,
        FastError::Http(_) => "HTTP error: "@,
        FastError::Database(_) => "Database error: "@,
        FastError::NotFound(_) => "Not found: "@,
        FastError::Validation(_) => "Validation error: "@,
        FastError::Unauthorized(_) => "Unauthorized: "@,
        FastError::Io(_) => "IO error: "@,
        FastError::Json(_) => "JSON error: "@,
        FastError::Internal(_) => "Internal error: "@,
    }
}

/// The message that an error carries, for the errors that carry one.
pub open spec fn error_detail(e: FastError) -> Option<Seq<char>> {
    match e {
        FastError::Config(m) => Some(m@),
        FastError::Http(m) => Some(m@),
        FastError::Database(m) => Some(m@),
        FastError::NotFound(m) => Some(m@),
        FastError::Validation(m) => Some(m@),
        FastError::Unauthorized(m) => Some(m@),
        FastError::Internal(m) => Some(m@),
        _ => None,
    }
}

impl FastError {
    /// The error's text: its kind, then its message.
    pub fn to_string(&self) -> (r: String)
        ensures
            r@.len() >= error_prefix(*self).len(),
            r@.take(error_prefix(*self).len() as int) == error_prefix(*self),
            error_detail(*self) matches Some(m) ==> r@ == error_prefix(*self) + m,
    {
        let mut out = String::new();
        match self {
            FastError::Config(m) => {
                out.append("Config error: ");
                out.append(m.as_str());
            },
            FastError::Http(m) => {
                out.append("HTTP error: ");
                out.append(m.as_str());
            },
            FastError::Database(m) => {
                out.append("Database error: ");
                out.append(m.as_str());
            },
            FastError::NotFound(m) => {
                out.append("Not found: ");
                out.append(m.as_str());
            },
            FastError::Validation(m) => {
                out.append("Validation error: ");
                out.append(m.as_str());
            },
            FastError::Unauthorized(m) => {
                out.append("Unauthorized: ");
                out.append(m.as_str());
            },
            FastError::Io(e) => {
                out.append("IO error: ");
                let t = io_error_text(e);
                out.append(t.as_str());
            },
            FastError::Json(e) => {
                out.append("JSON error: ");
                let t = json_error_text(e);
                out.append(t.as_str());
            },
            FastError::Internal(m) => {
                out.append("Internal error: ");
                out.append(m.as_str());
            },
        }
        assert(out@.take(error_prefix(*self).len() as int) =~= error_prefix(*self));
        out
    }
}

} // verus!
