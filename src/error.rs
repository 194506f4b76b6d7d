use vstd::prelude::*;

use crate::text::{decimal, push_decimal, starts_with};

use serde_json::Error as JsonError;
use std::io::Error as IoError;
use ureq::Error as UreqError;

verus! {

/// The transport error of the ureq HTTP client, carried through unchanged.
#[verifier::external_type_specification]
#[verifier::external_body]
pub struct ExUreqError(UreqError);

/// The decode error of serde_json, carried through unchanged.
#[verifier::external_type_specification]
#[verifier::external_body]
pub struct ExJsonError(JsonError);

/// The I/O error of std, met when a response body is read.
#[verifier::external_type_specification]
#[verifier::external_body]
pub struct ExIoError(IoError);

/// All errors returned by this crate.
#[derive(Debug)]
pub enum Error {
    /// The service answered with a status other than 200.
    Http(u16),
    /// Login was rejected.
    Auth,
    /// The response decoded to zero records.
    Empty,
    /// The HTTP client failed underneath.
    Ureq(UreqError),
    /// A structured payload did not match the expected record shape.
    Json(JsonError),
    /// Tabular rows did not match the expected record shape.
    Decode(String),
    /// The format asked for has no typed decode path in this build.
    Config(String),
    /// Anything not otherwise classified.
    Other(String),
}

/// Relies on ureq::Error's `Display` (through `to_string`) for a readable
/// description of a transport failure.
#[verifier::external_body]
fn ureq_error_text(e: &UreqError) -> String {
    e.to_string()
}

/// Relies on serde_json::Error's `Display` (through `to_string`) for a
/// readable description of a decode failure.
#[verifier::external_body]
fn json_error_text(e: &JsonError) -> String {
    e.to_string()
}

/// Relies on std::io::Error's `Display` (through `to_string`) for a readable
/// description of a failed read.
#[verifier::external_body]
fn io_error_text(e: &IoError) -> String {
    e.to_string()
}

impl Error {
    /// The human-readable description of the fixed-text variants.
    pub open spec fn fixed_message(&self) -> Option<Seq<char>> {
        match self {
            Error::Http(code) => Some("HTTP error "@ + decimal(*code as nat)),
            Error::Auth => Some("authentication failed"@),
            Error::Empty => Some("no records returned"@),
            Error::Decode(m) => Some(m@),
            Error::Config(m) => Some(m@),
            Error::Other(m) => Some(m@),
            _ => None,
        }
    }

    /// A human-readable description of the error.
    pub fn message(&self) -> (r: String)
        ensures
            self.fixed_message() matches Some(m) ==> r@ == m,
            self is Ureq ==> starts_with(r@, "ureq error: "@),
            self is Json ==> starts_with(r@, "json error: "@),
    {
        match self {
            Error::Http(code) => {
                let mut s = String::from_str("HTTP error ");
                push_decimal(&mut s, *code as u32);
                s
            },
            Error::Auth => String::from_str("authentication failed"),
            Error::Empty => String::from_str("no records returned"),
            Error::Ureq(e) => {
                let mut s = String::from_str("ureq error: ");
                let ghost head = s@;
                s.append(ureq_error_text(e).as_str());
                assert(s@.subrange(0, head.len() as int) =~= head);
                s
            },
            Error::Json(e) => {
                let mut s = String::from_str("json error: ");
                let ghost head = s@;
                s.append(json_error_text(e).as_str());
                assert(s@.subrange(0, head.len() as int) =~= head);
                s
            },
            Error::Decode(m) => m.clone(),
            Error::Config(m) => m.clone(),
            Error::Other(m) => m.clone(),
        }
    }
}

impl From<UreqError> for Error {
    fn from(e: UreqError) -> (r: Self)
        ensures
            r == Error::Ureq(e),
    {
        Error::Ureq(e)
    }
}

impl vstd::std_specs::convert::FromSpecImpl<UreqError> for Error {
    open spec fn obeys_from_spec() -> bool {
        true
    }

    open spec fn from_spec(v: UreqError) -> Error {
        Error::Ureq(v)
    }
}

impl From<JsonError> for Error {
    fn from(e: JsonError) -> (r: Self)
        ensures
            r == Error::Json(e),
    {
        Error::Json(e)
    }
}

impl vstd::std_specs::convert::FromSpecImpl<JsonError> for Error {
    open spec fn obeys_from_spec() -> bool {
        true
    }

    open spec fn from_spec(v: JsonError) -> Error {
        Error::Json(v)
    }
}

impl From<IoError> for Error {
    /// A failed read becomes `Other`, carrying the error's text.
    fn from(e: IoError) -> (r: Self)
        ensures
            r is Other,
    {
        Error::Other(io_error_text(&e))
    }
}

impl vstd::std_specs::convert::FromSpecImpl<IoError> for Error {
    /// The text is not known here, so no exact value is claimed.
    open spec fn obeys_from_spec() -> bool {
        false
    }

    open spec fn from_spec(v: IoError) -> Error {
        Error::Other(arbitrary())
    }
}

} // verus!
