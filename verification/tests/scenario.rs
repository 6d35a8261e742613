//! An end-to-end exchange over the wire encoding: log in, negotiate passive
//! mode, list a directory, and close the transfer.

use bytes::BytesMut;
use ftp_core::codec::FtpCodec;
use ftp_core::config::{Config, User};
use ftp_core::ftp::ResultCode;
use ftp_core::listing::{render_listing, FileInfo};
use ftp_core::session::{pasv_answer, Outcome, Request, Session};

/// Feeds one client line through the codec and the session, and returns the
/// session's request with the reply encoded as it would leave on the wire.
fn roundtrip(codec: &mut FtpCodec, session: &mut Session, line: &[u8]) -> (Request, BytesMut) {
    let mut inbuf = BytesMut::new();
    inbuf.extend(line);
    let cmd = codec
        .decode(&mut inbuf)
        .expect("the line parses")
        .expect("the line is complete");
    let request = session.handle_cmd(cmd);
    let mut outbuf = BytesMut::new();
    if let Request::Answer(a) = &request {
        codec.encode(a.clone(), &mut outbuf).unwrap();
    }
    (request, outbuf)
}

#[test]
fn anonymous_list_session() {
    let config = Config {
        server_port: Some(1234),
        server_addr: Some("127.0.0.1".to_string()),
        users: vec![User { name: "anonymous".to_string(), password: "".to_string() }],
        admin: None,
    };
    let mut session = Session::new("/srv/ftp".to_string(), config);
    let mut codec = FtpCodec;

    // The client logs in; no password is configured for anonymous.
    let (_, wire) = roundtrip(&mut codec, &mut session, b"USER anonymous\r\n");
    assert_eq!(wire, "230 Welcome anonymous!\r\n");

    // The client asks for passive mode; the server would bind a listener
    // and reply with the bound address and port.
    let (request, _) = roundtrip(&mut codec, &mut session, b"PASV\r\n");
    match request {
        Request::PasvListen { port } => assert_eq!(port, 0),
        other => panic!("PASV should listen, got {:?}", other),
    }
    let mut wire = BytesMut::new();
    codec.encode(pasv_answer(41000), &mut wire).unwrap();
    assert_eq!(wire, "227 127,0,0,1,160,40\r\n");

    // A second connection arrived on that port.
    session.data_opened();

    // The client lists the working directory.
    let (request, _) = roundtrip(&mut codec, &mut session, b"LIST\r\n");
    let op = match request {
        Request::Resolve { target, op } => {
            assert_eq!(target, "/srv/ftp/");
            op
        }
        other => panic!("LIST should resolve, got {:?}", other),
    };
    let outcome = session.resume_resolved(op, Some("/srv/ftp".to_string()), true, false);
    let target = match outcome {
        Outcome::ListDir { target, reply } => {
            assert_eq!(reply.code, ResultCode::DataConnectionAlreadyOpen);
            target
        }
        other => panic!("expected a directory listing, got {:?}", other),
    };

    // The entries found under the target go out on the data connection.
    let entries = vec![FileInfo {
        path: format!("{}/hello.txt", target),
        name: "hello.txt".to_string(),
        is_dir: false,
        readonly: false,
        size: 5,
        month: 1,
        day: 2,
        hour: 3,
        min: 4,
    }];
    let data = render_listing(&session, &entries);
    assert_eq!(
        String::from_utf8(data).unwrap(),
        "-rw-rw-rw- 1 anonymous anonymous 5 Feb 2 03:04 hello.txt\r\n"
    );

    // The data connection closes and the control channel hears about it.
    let closing = session.close_data().expect("a transfer consumed the channel");
    let mut wire = BytesMut::new();
    codec.encode(closing, &mut wire).unwrap();
    assert_eq!(wire, "226 Transfer done\r\n");
    assert!(!session.has_data_channel);
}
