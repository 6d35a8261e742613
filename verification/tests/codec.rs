//! The line-framing codec, driven through real `bytes` buffers.

use bytes::BytesMut;
use ftp_core::cmd::Command;
use ftp_core::codec::{BytesCodec, FtpCodec};
use ftp_core::ftp::{Answer, ResultCode};

#[test]
fn test_encoder() {
    let mut codec = FtpCodec;
    let message = "bad sequence of commands";
    let answer = Answer::new(ResultCode::BadSequenceOfCommands, message);

    let mut buf = BytesMut::new();
    let result = codec.encode(answer, &mut buf);
    assert!(result.is_ok());
    assert_eq!(buf, format!("503 {}\r\n", message));

    let answer = Answer::new(ResultCode::CantOpenDataConnection, "");
    let mut buf = BytesMut::new();
    let result = codec.encode(answer, &mut buf);
    assert!(result.is_ok(), "Result is ok");
    assert_eq!(buf, format!("425\r\n"), "Buffer contains 425");
}

#[test]
fn test_decoder() {
    let mut codec = FtpCodec;
    let mut buf = BytesMut::new();
    buf.extend(b"PWD");
    let result = codec.decode(&mut buf);
    assert!(result.is_ok());
    let command = result.unwrap();
    assert!(command.is_none());

    buf.extend(b"\r\n");
    let result = codec.decode(&mut buf);
    assert!(result.is_ok());
    let command = result.unwrap();
    assert_eq!(command, Some(Command::Pwd));

    let mut buf = BytesMut::new();
    buf.extend(b"LIST /tmp\r\n");
    let result = codec.decode(&mut buf);
    assert!(result.is_ok());
    let command = result.unwrap();
    assert_eq!(command, Some(Command::List(Some(String::from("/tmp")))));
}

#[test]
fn decoder_keeps_rest_of_buffer() {
    let mut codec = FtpCodec;
    let mut buf = BytesMut::new();
    buf.extend(b"SYST\r\nNOOP\r\n");
    assert_eq!(codec.decode(&mut buf).unwrap(), Some(Command::Syst));
    assert_eq!(&buf[..], b"NOOP\r\n");
    assert_eq!(codec.decode(&mut buf).unwrap(), Some(Command::NoOp));
    assert_eq!(buf.len(), 0);
    assert_eq!(codec.decode(&mut buf).unwrap(), None);
}

#[test]
fn decoder_takes_lone_cr_and_lf_as_content() {
    let mut codec = FtpCodec;
    let mut buf = BytesMut::new();
    buf.extend(b"USER a\rb\nc\r\n");
    match codec.decode(&mut buf).unwrap() {
        Some(Command::User(name)) => assert_eq!(name, "a\rb\nc"),
        other => panic!("expected a USER command, got {:?}", other),
    }
}

#[test]
fn decoder_error_on_bad_utf8_argument() {
    let mut codec = FtpCodec;
    let mut buf = BytesMut::new();
    buf.extend(b"USER \xff\xfe\r\n");
    assert!(codec.decode(&mut buf).is_err());
    // The bad line is consumed; the connection can go on.
    buf.extend(b"PWD\r\n");
    assert_eq!(codec.decode(&mut buf).unwrap(), Some(Command::Pwd));
}

#[test]
fn bytes_codec_drains_whole_buffer() {
    let mut codec = BytesCodec;
    let mut buf = BytesMut::new();
    assert_eq!(codec.decode(&mut buf).unwrap(), None);
    buf.extend(b"raw \xff bytes, no framing");
    assert_eq!(
        codec.decode(&mut buf).unwrap(),
        Some(b"raw \xff bytes, no framing".to_vec())
    );
    assert_eq!(buf.len(), 0);
}

#[test]
fn bytes_codec_encode_appends() {
    let mut codec = BytesCodec;
    let mut buf = BytesMut::new();
    codec.encode(b"abc".to_vec(), &mut buf).unwrap();
    codec.encode(b"def".to_vec(), &mut buf).unwrap();
    assert_eq!(&buf[..], b"abcdef");
}
