//! The session state machine: authentication, gating, navigation and the
//! sandbox, driven command by command.

use ftp_core::cmd::Command;
use ftp_core::config::{Config, User};
use ftp_core::ftp::ResultCode;
use ftp_core::session::{
    mkd_done, pasv_answer, rmd_done, Outcome, Request, ResolveOp, Session,
};

fn test_config() -> Config {
    Config {
        server_port: Some(1234),
        server_addr: Some("127.0.0.1".to_string()),
        users: vec![
            User { name: "anonymous".to_string(), password: "".to_string() },
            User { name: "alice".to_string(), password: "wonderland".to_string() },
        ],
        admin: Some(User { name: "root".to_string(), password: "toor".to_string() }),
    }
}

fn new_session() -> Session {
    Session::new("/srv/ftp".to_string(), test_config())
}

fn reply_of(r: Request) -> ftp_core::ftp::Answer {
    match r {
        Request::Answer(a) => a,
        other => panic!("expected a plain reply, got {:?}", other),
    }
}

#[test]
fn anonymous_login_needs_no_password() {
    let mut s = new_session();
    assert!(!s.is_logged());
    let a = reply_of(s.handle_cmd(Command::User("anonymous".into())));
    assert_eq!(a.code, ResultCode::UserLoggedIn);
    assert_eq!(a.message, "Welcome anonymous!");
    assert!(s.is_logged());
}

#[test]
fn password_login_and_wrong_password() {
    let mut s = new_session();
    let a = reply_of(s.handle_cmd(Command::User("alice".into())));
    assert_eq!(a.code, ResultCode::UserNameOkayNeedPassword);
    assert_eq!(a.message, "Login Ok password needed for alice");
    assert!(!s.is_logged());

    let a = reply_of(s.handle_cmd(Command::Pass("guess".into())));
    assert_eq!(a.code, ResultCode::NotLoggedIn);
    assert_eq!(a.message, "Invalid password");
    assert!(!s.is_logged());

    // The pending name is cleared: a retry starts over with USER.
    let _ = s.handle_cmd(Command::User("alice".into()));
    let a = reply_of(s.handle_cmd(Command::Pass("wonderland".into())));
    assert_eq!(a.code, ResultCode::UserLoggedIn);
    assert_eq!(a.message, "Welcome alice");
    assert!(s.is_logged());
}

#[test]
fn admin_login_is_checked_first() {
    let mut s = new_session();
    let a = reply_of(s.handle_cmd(Command::User("root".into())));
    assert_eq!(a.code, ResultCode::UserNameOkayNeedPassword);
    let a = reply_of(s.handle_cmd(Command::Pass("toor".into())));
    assert_eq!(a.code, ResultCode::UserLoggedIn);
    assert!(s.is_logged());
    assert!(s.is_admin);
}

#[test]
fn unknown_user_is_refused() {
    let mut s = new_session();
    let a = reply_of(s.handle_cmd(Command::User("nobody".into())));
    assert_eq!(a.code, ResultCode::NotLoggedIn);
    assert_eq!(a.message, "Unknown user...");
    let a = reply_of(s.handle_cmd(Command::User("".into())));
    assert_eq!(a.code, ResultCode::InvalidParameterOrArgument);
}

#[test]
fn gating_refuses_transfers_before_login() {
    // Every transfer or navigation command draws the not-logged-in reply
    // and asks for no outside work.
    let cmds = vec![
        Command::Cwd("/tmp".into()),
        Command::List(None),
        Command::Pasv,
        Command::Port(2048),
        Command::Pwd,
        Command::Retr("f".into()),
        Command::Stor("f".into()),
        Command::CdUp,
        Command::Mkd("d".into()),
        Command::Rmd("d".into()),
    ];
    for cmd in cmds {
        let mut s = new_session();
        let a = reply_of(s.handle_cmd(cmd));
        assert_eq!(a.code, ResultCode::NotLoggedIn);
        assert_eq!(a.message, "Please log first");
        assert!(!s.is_logged());
        assert!(!s.has_data_channel);
    }
}

#[test]
fn open_commands_work_before_login() {
    let mut s = new_session();
    let a = reply_of(s.handle_cmd(Command::NoOp));
    assert_eq!(a.code, ResultCode::Okay);
    let a = reply_of(s.handle_cmd(Command::Syst));
    assert_eq!(a.code, ResultCode::Okay);
    let a = reply_of(s.handle_cmd(Command::Unknown("AUTH".into())));
    assert_eq!(a.code, ResultCode::UnknownCommand);
    assert_eq!(a.message, "\"AUTH\": Not implemented");
    let a = reply_of(s.handle_cmd(Command::Type(ftp_core::cmd::TransferType::Image)));
    assert_eq!(a.code, ResultCode::Okay);
    match s.handle_cmd(Command::Quit) {
        Request::AnswerThenClose(a) => {
            assert_eq!(a.code, ResultCode::ServiceClosingControlConnection);
            assert_eq!(a.message, "Closing connection...");
        }
        other => panic!("QUIT should close, got {:?}", other),
    }
}

fn logged_in() -> Session {
    let mut s = new_session();
    let _ = s.handle_cmd(Command::User("anonymous".into()));
    assert!(s.is_logged());
    s
}

#[test]
fn pwd_and_cwd_and_cdup() {
    let mut s = logged_in();
    let a = reply_of(s.handle_cmd(Command::Pwd));
    assert_eq!(a.code, ResultCode::PATHNAMECreated);
    assert_eq!(a.message, "\"/\" ");

    // CWD asks for the joined path below the root to be canonicalized.
    let (target, op) = match s.handle_cmd(Command::Cwd("docs".into())) {
        Request::Resolve { target, op } => (target, op),
        other => panic!("CWD should resolve, got {:?}", other),
    };
    assert_eq!(target, "/srv/ftp/docs");
    assert!(matches!(op, ResolveOp::Cwd { .. }));

    // The filesystem canonicalized it inside the root: the move happens.
    match s.resume_resolved(op, Some("/srv/ftp/docs".to_string()), true, false) {
        Outcome::Answer(a) => {
            assert_eq!(a.code, ResultCode::RequestedFileActionOkay);
            assert_eq!(a.message, "Directory changed to \"docs\"");
        }
        other => panic!("expected a reply, got {:?}", other),
    }
    let a = reply_of(s.handle_cmd(Command::Pwd));
    assert_eq!(a.message, "\"/docs\" ");

    let a = reply_of(s.handle_cmd(Command::CdUp));
    assert_eq!(a.code, ResultCode::Okay);
    let a = reply_of(s.handle_cmd(Command::Pwd));
    assert_eq!(a.message, "\"/\" ");

    // At the root, CDUP stays at the root.
    let _ = s.handle_cmd(Command::CdUp);
    let a = reply_of(s.handle_cmd(Command::Pwd));
    assert_eq!(a.message, "\"/\" ");
}

#[test]
fn cwd_outside_the_root_is_refused() {
    let mut s = logged_in();
    let op = match s.handle_cmd(Command::Cwd("../../etc".into())) {
        Request::Resolve { op, .. } => op,
        other => panic!("CWD should resolve, got {:?}", other),
    };
    // Canonicalization escaped the sandbox: the session must refuse it.
    match s.resume_resolved(op, Some("/etc".to_string()), true, false) {
        Outcome::Answer(a) => assert_eq!(a.code, ResultCode::FileNotFound),
        other => panic!("expected a refusal, got {:?}", other),
    }
    let a = reply_of(s.handle_cmd(Command::Pwd));
    assert_eq!(a.message, "\"/\" ");

    // A sibling whose name extends the root's is outside too.
    let op = match s.handle_cmd(Command::Cwd("x".into())) {
        Request::Resolve { op, .. } => op,
        other => panic!("CWD should resolve, got {:?}", other),
    };
    match s.resume_resolved(op, Some("/srv/ftp-other".to_string()), true, false) {
        Outcome::Answer(a) => assert_eq!(a.code, ResultCode::FileNotFound),
        other => panic!("expected a refusal, got {:?}", other),
    }
}

#[test]
fn port_and_pasv() {
    let mut s = logged_in();
    let a = reply_of(s.handle_cmd(Command::Port(2025)));
    assert_eq!(a.code, ResultCode::Okay);
    assert_eq!(a.message, "Data port is now 2025");

    match s.handle_cmd(Command::Pasv) {
        Request::PasvListen { port } => assert_eq!(port, 2025),
        other => panic!("PASV should listen, got {:?}", other),
    }
    let a = pasv_answer(2025);
    assert_eq!(a.code, ResultCode::EnteringPassiveMode);
    assert_eq!(a.message, "127,0,0,1,7,233");
    s.data_opened();
    assert!(s.has_data_channel);

    // A second PASV while the channel is open keeps it.
    let a = reply_of(s.handle_cmd(Command::Pasv));
    assert_eq!(a.code, ResultCode::DataConnectionAlreadyOpen);
    assert_eq!(a.message, "Already listening...");
    assert!(s.has_data_channel);
}

#[test]
fn transfers_need_a_data_channel() {
    let mut s = logged_in();
    for cmd in [
        Command::List(None),
        Command::Retr("f".into()),
        Command::Stor("f".into()),
    ] {
        let a = reply_of(s.handle_cmd(cmd));
        assert_eq!(a.code, ResultCode::ConnectionClosed);
        assert_eq!(a.message, "No opened data connection");
    }
}

#[test]
fn stor_with_parent_segments_is_refused() {
    // The refusal comes whatever the data channel's state, and no request
    // for filesystem work is made.
    for open_channel in [false, true] {
        let mut s = logged_in();
        if open_channel {
            s.data_opened();
        }
        let a = reply_of(s.handle_cmd(Command::Stor("../secret".into())));
        assert_eq!(a.code, ResultCode::FileNotFound);
        assert_eq!(a.message, "Permission denied");
        let a = reply_of(s.handle_cmd(Command::Stor("a/../../b".into())));
        assert_eq!(a.message, "Permission denied");
    }
}

#[test]
fn stor_protects_the_configuration_file() {
    let mut s = logged_in();
    s.data_opened();
    let a = reply_of(s.handle_cmd(Command::Stor("config.toml".into())));
    assert_eq!(a.code, ResultCode::FileNotFound);
    assert_eq!(a.message, "Permission denied");
}

#[test]
fn stor_receives_into_the_sandbox() {
    let mut s = logged_in();
    s.data_opened();
    let (target, reply) = match s.handle_cmd(Command::Stor("up.bin".into())) {
        Request::Store { target, reply } => (target, reply),
        other => panic!("STOR should store, got {:?}", other),
    };
    assert_eq!(target, "/srv/ftp/up.bin");
    assert_eq!(reply.code, ResultCode::DataConnectionAlreadyOpen);
    let a = s.stor_done(true);
    assert_eq!(a.code, ResultCode::ClosingDataConnection);
    assert_eq!(a.message, "Transfer done");
    assert!(!s.has_data_channel);
}

#[test]
fn retr_checks_file_and_protection() {
    let mut s = logged_in();
    s.data_opened();
    let op = match s.handle_cmd(Command::Retr("notes.txt".into())) {
        Request::Resolve { target, op } => {
            assert_eq!(target, "/srv/ftp/notes.txt");
            op
        }
        other => panic!("RETR should resolve, got {:?}", other),
    };
    match s.resume_resolved(op, Some("/srv/ftp/notes.txt".to_string()), false, true) {
        Outcome::SendFile { target, reply } => {
            assert_eq!(target, "/srv/ftp/notes.txt");
            assert_eq!(reply.code, ResultCode::DataConnectionAlreadyOpen);
        }
        other => panic!("expected a send, got {:?}", other),
    }
    let a = s.close_data().expect("a channel was open");
    assert_eq!(a.code, ResultCode::ClosingDataConnection);

    // A directory, a missing file, or the configuration file is refused.
    s.data_opened();
    let op = match s.handle_cmd(Command::Retr("config.toml".into())) {
        Request::Resolve { op, .. } => op,
        other => panic!("RETR should resolve, got {:?}", other),
    };
    match s.resume_resolved(op, Some("/srv/ftp/config.toml".to_string()), false, true) {
        Outcome::Answer(a) => {
            assert_eq!(a.code, ResultCode::LocalErrorInProcessing);
            assert_eq!(a.message, "\"/config.toml\" doesn't exist");
        }
        other => panic!("expected a refusal, got {:?}", other),
    }
}

#[test]
fn mkd_and_rmd_flow() {
    let mut s = logged_in();
    let (target, op) = match s.handle_cmd(Command::Mkd("sub".into())) {
        Request::Resolve { target, op } => (target, op),
        other => panic!("MKD should resolve, got {:?}", other),
    };
    // The parent is resolved; the new name rides along.
    assert_eq!(target, "/srv/ftp/");
    match &op {
        ResolveOp::Mkd { filename } => assert_eq!(filename, "sub"),
        other => panic!("expected a directory creation, got {:?}", other),
    }
    match s.resume_resolved(op, Some("/srv/ftp".to_string()), true, false) {
        Outcome::CreateDir { target } => assert_eq!(target, "/srv/ftp/sub"),
        other => panic!("expected a creation, got {:?}", other),
    }
    let a = mkd_done(true);
    assert_eq!(a.code, ResultCode::PATHNAMECreated);
    assert_eq!(a.message, "Folder successfully created!");
    let a = mkd_done(false);
    assert_eq!(a.code, ResultCode::FileNotFound);

    let op = match s.handle_cmd(Command::Rmd("sub".into())) {
        Request::Resolve { target, op } => {
            assert_eq!(target, "/srv/ftp/sub");
            op
        }
        other => panic!("RMD should resolve, got {:?}", other),
    };
    match s.resume_resolved(op, Some("/srv/ftp/sub".to_string()), true, false) {
        Outcome::RemoveDir { target } => assert_eq!(target, "/srv/ftp/sub"),
        other => panic!("expected a removal, got {:?}", other),
    }
    assert_eq!(rmd_done(true).code, ResultCode::RequestedFileActionOkay);
    assert_eq!(rmd_done(false).code, ResultCode::FileNotFound);

    // A parent outside the sandbox is never created into.
    let op = match s.handle_cmd(Command::Mkd("x".into())) {
        Request::Resolve { op, .. } => op,
        other => panic!("MKD should resolve, got {:?}", other),
    };
    match s.resume_resolved(op, Some("/tmp".to_string()), true, false) {
        Outcome::Answer(a) => assert_eq!(a.message, "Couldn't create folder"),
        other => panic!("expected a refusal, got {:?}", other),
    }
}
