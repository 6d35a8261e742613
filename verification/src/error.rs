//! The library's error type. Parse failures carry either a message or the
//! UTF-8 decoding error they came from; I/O errors raised by the surrounding
//! binary can be carried through unchanged.

use vstd::prelude::*;

verus! {

/// Declares `std::io::Error` so values of it can be carried and returned.
#[verifier::external_type_specification]
#[verifier::external_body]
pub struct ExIoError(std::io::Error);

/// Declares `std::string::FromUtf8Error`, the error of `String::from_utf8`.
#[verifier::external_type_specification]
#[verifier::external_body]
pub struct ExFromUtf8Error(std::string::FromUtf8Error);

/// Declares `std::str::Utf8Error`, the error of `str::from_utf8`.
#[verifier::external_type_specification]
#[verifier::external_body]
pub struct ExUtf8Error(std::str::Utf8Error);

#[derive(Debug)]
pub enum Error {
    FromUtf8(std::string::FromUtf8Error),
    Io(std::io::Error),
    Msg(String),
    Utf8(std::str::Utf8Error),
}

/// Relies on `<io::Error as From<io::ErrorKind>>::from`: builds the generic
/// I/O error that stands for any failure that is not itself an I/O error.
#[verifier::external_body]
fn other_io_error() -> std::io::Error {
    std::io::ErrorKind::Other.into()
}

impl Error {
    /// Converts to an I/O error: an `Io` value is handed back unchanged, any
    /// other failure collapses to the generic I/O error.
    pub fn to_io_error(self) -> (r: std::io::Error)
        ensures
            self matches Error::Io(e) ==> r == e,
    {
        match self {
            Error::Io(error) => error,
            Error::FromUtf8(_) | Error::Msg(_) | Error::Utf8(_) => other_io_error(),
        }
    }
}

} // verus!
