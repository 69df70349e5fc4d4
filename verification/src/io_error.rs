//! I/O errors: what the library makes and reads of [`std::io::Error`].

use vstd::prelude::*;

verus! {

use crate::json::shown_text;
use crate::text::utf8_error_text;

/// `std::io::Error`, of which contracts speak through [`io_error_kind`] and
/// [`io_error_payload`].
#[verifier::external_type_specification]
#[verifier::external_body]
pub struct ExIoError(std::io::Error);

/// The kinds of I/O error that the library makes.
#[derive(Debug, Clone, Copy, PartialEq, Eq, Structural)]
pub enum IoKind {
    /// `std::io::ErrorKind::InvalidData`.
    InvalidData,
    /// `std::io::ErrorKind::BrokenPipe`.
    BrokenPipe,
}

/// What an I/O error of the library is made of.
#[derive(Debug)]
pub enum IoPayload {
    /// A text.
    Text(String),
    /// An error of reading UTF-8.
    Utf8(std::str::Utf8Error),
    /// An error of reading an integer.
    Integer(std::num::ParseIntError),
    /// An error of reading or writing JSON.
    Json(serde_json::Error),
}

/// The kind that `std::io::Error::kind` gives, where it is one of [`IoKind`].
pub uninterp spec fn io_error_kind(e: std::io::Error) -> Option<IoKind>;

/// The payload that `std::io::Error::new` was given, where it is one of [`IoPayload`].
pub uninterp spec fn io_error_payload(e: std::io::Error) -> Option<IoPayload>;

/// The message that an I/O error displays, where that is a function of the error: it is that of its
/// payload. The message of an error that the operating system gave is not. That of an integer's
/// error is left open.
pub open spec fn io_error_text(e: std::io::Error) -> Option<Seq<char>> {
    match io_error_payload(e) {
        Some(IoPayload::Text(text)) => Some(text@),
        Some(IoPayload::Utf8(e)) => Some(utf8_error_text(e)),
        Some(IoPayload::Json(e)) => shown_text(e),
        Some(IoPayload::Integer(_)) | None => None,
    }
}

/// `std::io::Error::new`: the error has the given kind and payload.
#[verifier::external_body]
pub(crate) fn new_io_error(kind: IoKind, payload: IoPayload) -> (r: std::io::Error)
    ensures
        io_error_kind(r) == Some(kind),
        io_error_payload(r) == Some(payload),
{
    let kind = match kind {
        IoKind::InvalidData => std::io::ErrorKind::InvalidData,
        IoKind::BrokenPipe => std::io::ErrorKind::BrokenPipe,
    };
    match payload {
        IoPayload::Text(text) => std::io::Error::new(kind, text),
        IoPayload::Utf8(e) => std::io::Error::new(kind, e),
        IoPayload::Integer(e) => std::io::Error::new(kind, e),
        IoPayload::Json(e) => std::io::Error::new(kind, e),
    }
}

/// `Display` of `std::io::Error`: of an error that was made with a payload, the message of the
/// payload. Of other errors, and of an integer's error, nothing is claimed.
#[verifier::external_body]
pub(crate) fn error_text(e: &std::io::Error) -> (r: String)
    ensures
        io_error_text(*e) matches Some(text) ==> r@ == text,
{
    e.to_string()
}

} // verus!
