//! The error type's conversion to I/O errors.

use ftp_core::error::Error;
use std::io;

#[test]
fn io_errors_pass_through_unchanged() {
    let e = Error::Io(io::Error::new(io::ErrorKind::NotFound, "gone"));
    assert_eq!(e.to_io_error().kind(), io::ErrorKind::NotFound);
}

#[test]
fn other_errors_collapse_to_a_generic_io_error() {
    let e = Error::Msg("bad line".to_string());
    assert_eq!(e.to_io_error().kind(), io::ErrorKind::Other);

    let bad = std::str::from_utf8(&[0xff]).unwrap_err();
    assert_eq!(Error::Utf8(bad).to_io_error().kind(), io::ErrorKind::Other);

    let bad = String::from_utf8(vec![0xff]).unwrap_err();
    assert_eq!(Error::FromUtf8(bad).to_io_error().kind(), io::ErrorKind::Other);
}
