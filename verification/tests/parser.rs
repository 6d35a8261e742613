//! The command parser: every byte sequence gets a value or an error.

use ftp_core::cmd::{Command, TransferType};
use ftp_core::error::Error;

fn parse(line: &[u8]) -> Result<Command, Error> {
    Command::new(line.to_vec())
}

#[test]
fn parses_each_verb() {
    assert_eq!(parse(b"PWD").unwrap(), Command::Pwd);
    assert_eq!(parse(b"PASV").unwrap(), Command::Pasv);
    assert_eq!(parse(b"CDUP").unwrap(), Command::CdUp);
    assert_eq!(parse(b"SYST").unwrap(), Command::Syst);
    assert_eq!(parse(b"NOOP").unwrap(), Command::NoOp);
    assert_eq!(parse(b"QUIT").unwrap(), Command::Quit);
    assert_eq!(parse(b"USER anonymous").unwrap(), Command::User("anonymous".into()));
    assert_eq!(parse(b"PASS secret").unwrap(), Command::Pass("secret".into()));
    assert_eq!(parse(b"CWD /tmp").unwrap(), Command::Cwd("/tmp".into()));
    assert_eq!(parse(b"RETR file.txt").unwrap(), Command::Retr("file.txt".into()));
    assert_eq!(parse(b"STOR file.txt").unwrap(), Command::Stor("file.txt".into()));
    assert_eq!(parse(b"MKD sub").unwrap(), Command::Mkd("sub".into()));
    assert_eq!(parse(b"RMD sub").unwrap(), Command::Rmd("sub".into()));
    assert_eq!(parse(b"LIST").unwrap(), Command::List(None));
    assert_eq!(parse(b"LIST /tmp").unwrap(), Command::List(Some("/tmp".into())));
    assert_eq!(parse(b"TYPE A").unwrap(), Command::Type(TransferType::Ascii));
    assert_eq!(parse(b"TYPE I").unwrap(), Command::Type(TransferType::Image));
    assert_eq!(parse(b"PORT 127,0,0,1,7,233").unwrap(), Command::Port(7 * 256 + 233));
}

#[test]
fn verb_match_is_case_insensitive() {
    assert_eq!(parse(b"pwd").unwrap(), Command::Pwd);
    assert_eq!(parse(b"QuIt").unwrap(), Command::Quit);
    assert_eq!(parse(b"user me").unwrap(), Command::User("me".into()));
}

#[test]
fn argument_keeps_spaces_after_first_run() {
    assert_eq!(parse(b"CWD a directory").unwrap(), Command::Cwd("a directory".into()));
    assert_eq!(parse(b"USER   padded").unwrap(), Command::User("padded".into()));
}

#[test]
fn unknown_verbs_are_commands_not_errors() {
    assert_eq!(parse(b"AUTH TLS").unwrap(), Command::Unknown("AUTH".into()));
    assert_eq!(parse(b"").unwrap(), Command::Unknown("".into()));
    assert_eq!(parse(b"xyzzy").unwrap(), Command::Unknown("xyzzy".into()));
}

#[test]
fn missing_argument_is_a_message_error() {
    for line in [&b"USER"[..], b"PASS", b"CWD", b"RETR", b"STOR", b"MKD", b"RMD", b"TYPE", b"PORT", b"USER   "] {
        match parse(line) {
            Err(Error::Msg(_)) => {}
            other => panic!("{:?} should be a message error, got {:?}", line, other),
        }
    }
}

#[test]
fn bad_utf8_argument_is_an_encoding_error() {
    match parse(b"USER \xc3\x28") {
        Err(Error::FromUtf8(_)) => {}
        other => panic!("expected an encoding error, got {:?}", other),
    }
    match parse(b"LIST \xff") {
        Err(Error::FromUtf8(_)) => {}
        other => panic!("expected an encoding error, got {:?}", other),
    }
}

#[test]
fn non_ascii_utf8_argument_is_decoded() {
    assert_eq!(parse("USER caf\u{e9}".as_bytes()).unwrap(), Command::User("caf\u{e9}".into()));
}

#[test]
fn port_argument_is_checked() {
    // Wrong arity.
    assert!(parse(b"PORT 127,0,0,1,7").is_err());
    assert!(parse(b"PORT 1,2,3,4,5,6,7").is_err());
    // Out-of-range or malformed octets.
    assert!(parse(b"PORT 127,0,0,1,7,256").is_err());
    assert!(parse(b"PORT 127,0,0,1,,1").is_err());
    assert!(parse(b"PORT 127,0,0,1,a,1").is_err());
    // Leading zeros are octets all the same.
    assert_eq!(parse(b"PORT 127,000,0,1,001,002").unwrap(), Command::Port(258));
    assert_eq!(parse(b"PORT 0,0,0,0,0,0").unwrap(), Command::Port(0));
    assert_eq!(parse(b"PORT 1,2,3,4,255,255").unwrap(), Command::Port(65535));
}

#[test]
fn type_argument_is_checked() {
    assert!(parse(b"TYPE X").is_err());
    assert!(parse(b"TYPE a").is_err());
}

#[test]
fn arbitrary_bytes_never_panic() {
    // A spread of adversarial inputs: the parser must return a value or an
    // error for each.
    let cases: Vec<Vec<u8>> = vec![
        vec![],
        vec![0],
        vec![255; 1000],
        b"\r\n".to_vec(),
        b"   ".to_vec(),
        b"PORT ,,,,,".to_vec(),
        b"PORT 999999999999999999999,1,1,1,1,1".to_vec(),
        b"\xf0\x9f\xa6\x80 \xf0\x9f\xa6\x80".to_vec(),
        (0u8..=255).collect(),
    ];
    for case in cases {
        let _ = Command::new(case);
    }
}
