//! The per-connection session state machine. A session consumes decoded
//! commands and produces either a reply or a request for outside work
//! (binding a passive listener, canonicalizing a path, touching the
//! filesystem, moving data). The surrounding binary performs each request
//! and hands the result back through the `resume`/`done` functions here, so
//! every decision — authentication, command gating, the sandbox check, which
//! reply goes out — is made by verified code.

use vstd::prelude::*;
use vstd::string::StringExecFns;

use crate::cmd::{Command, TransferType};
use crate::config::Config;
use crate::ftp::{Answer, ResultCode};
use crate::paths::{
    filename_of, filename_vpath, has_dotdot, invalid_path, is_under, join_virtual, join_vpath,
    parent_of, parent_vpath, real_of, sandbox_accept, sbytes, strip_root, strip_root_spec,
    to_real, vpath_wf, wf_vpath,
};
use crate::text::{bytes_eq, dec_chars, u64_dec_string};

verus! {

/// The per-connection state: everything the next command's handling depends
/// on. The live socket handles stay outside; `has_data_channel` mirrors
/// whether an accepted, unconsumed data connection exists.
#[derive(Debug)]
pub struct Session {
    pub server_root: String,
    pub config: Config,
    pub cwd: String,
    pub name: Option<String>,
    pub data_port: Option<u16>,
    pub has_data_channel: bool,
    pub transfer_type: TransferType,
    pub is_admin: bool,
    pub waiting_password: bool,
}

/// What the session asks of its surroundings after one command.
#[derive(Debug)]
pub enum Request {
    /// Send this reply; the command is done.
    Answer(Answer),
    /// Send this reply, then shut the control connection down.
    AnswerThenClose(Answer),
    /// Bind a loopback listener on this port (0 for an ephemeral one),
    /// reply with [`pasv_answer`] of the bound port, await one connection,
    /// then call [`Session::data_opened`].
    PasvListen { port: u16 },
    /// Canonicalize this real path, then call [`Session::resume_resolved`]
    /// with the outcome and what kind of entry it is.
    Resolve { target: String, op: ResolveOp },
    /// Send `reply`, drain the data connection into this real path, then
    /// call [`Session::stor_done`].
    Store { target: String, reply: Answer },
}

/// The command a canonicalization result belongs to, with what its finish
/// needs.
#[derive(Debug)]
pub enum ResolveOp {
    Cwd { dir: String },
    Mkd { filename: String },
    Rmd,
    List,
    Retr { path: String },
}

/// What the session decides once a path is resolved.
#[derive(Debug)]
pub enum Outcome {
    /// Send this reply; the command is done.
    Answer(Answer),
    /// Create this directory, then call [`mkd_done`].
    CreateDir { target: String },
    /// Remove this directory tree, then call [`rmd_done`].
    RemoveDir { target: String },
    /// Send `reply`, list this directory's entries, render them with
    /// [`crate::listing::render_listing`], send the rendering on the data
    /// channel, then call [`Session::close_data`].
    ListDir { target: String, reply: Answer },
    /// As `ListDir`, for a single file.
    ListFile { target: String, reply: Answer },
    /// Send `reply`, write this file's contents to the data channel, then
    /// call [`Session::close_data`].
    SendFile { target: String, reply: Answer },
}

/// A session is well formed when its working directory is a well-formed
/// virtual path; every constructor and transition keeps this.
pub open spec fn session_wf(s: Session) -> bool {
    wf_vpath(sbytes(s.cwd@))
}

/// Authentication is complete: a name is recorded and no password is
/// pending.
pub open spec fn spec_is_logged(s: Session) -> bool {
    s.name is Some && !s.waiting_password
}

/// The commands refused until authentication completes.
pub open spec fn is_gated_cmd(c: Command) -> bool {
    ||| c is Cwd
    ||| c is List
    ||| c is Pasv
    ||| c is Port
    ||| c is Pwd
    ||| c is Retr
    ||| c is Stor
    ||| c is CdUp
    ||| c is Mkd
    ||| c is Rmd
}

/// The request is one reply with this code and message.
pub open spec fn is_reply(r: Request, code: ResultCode, msg: Seq<char>) -> bool {
    r matches Request::Answer(a) && a.code == code && a.message@ == msg
}

pub open spec fn is_answer(a: Answer, code: ResultCode, msg: Seq<char>) -> bool {
    a.code == code && a.message@ == msg
}

/// Everything but the authentication fields is unchanged.
pub open spec fn eq_except_auth(a: Session, b: Session) -> bool {
    &&& a.server_root == b.server_root
    &&& a.config == b.config
    &&& a.cwd == b.cwd
    &&& a.data_port == b.data_port
    &&& a.has_data_channel == b.has_data_channel
    &&& a.transfer_type == b.transfer_type
}

/// The virtual path of the protected configuration file.
pub open spec fn config_file_vpath() -> Seq<u8> {
    sbytes("/config.toml"@)
}

/// The first index whose user is named `name`, or the length.
pub open spec fn user_index_from(users: Seq<crate::config::User>, name: Seq<char>, i: int) -> int
    decreases users.len() - i,
{
    if i < 0 || i >= users.len() {
        users.len() as int
    } else if users[i].name@ == name {
        i
    } else {
        user_index_from(users, name, i + 1)
    }
}

pub open spec fn user_index(users: Seq<crate::config::User>, name: Seq<char>) -> int {
    user_index_from(users, name, 0)
}

proof fn lemma_user_index_is(users: Seq<crate::config::User>, name: Seq<char>, from: int, r: int)
    requires
        0 <= from <= r <= users.len(),
        forall|j: int| from <= j < r ==> (#[trigger] users[j]).name@ != name,
        r < users.len() ==> users[r].name@ == name,
    ensures
        user_index_from(users, name, from) == r,
    decreases r - from,
{
    if from < r {
        lemma_user_index_is(users, name, from + 1, r);
    }
}

/// Some stored credential has this name and this password.
pub open spec fn credentials_match(
    users: Seq<crate::config::User>,
    name: Seq<char>,
    pass: Seq<char>,
) -> bool {
    exists|k: int|
        0 <= k < users.len() && (#[trigger] users[k]).name@ == name && users[k].password@ == pass
}

/// What `USER name` does. The admin credential is checked first, then the
/// user list; an unknown name changes nothing but the admin flag; a known
/// name is recorded and either logs in directly (no password required) or
/// awaits the password.
pub open spec fn user_post(s: Session, s2: Session, name: String, r: Request) -> bool {
    if name@.len() == 0 {
        &&& s2 == s
        &&& is_reply(r, ResultCode::InvalidParameterOrArgument, "Invalid username"@)
    } else if s.config.admin matches Some(a) && a.name@ == name@ {
        let a = s.config.admin->0;
        &&& eq_except_auth(s, s2)
        &&& s2.is_admin == true
        &&& s2.name matches Some(n) && n@ == name@
        &&& if a.password@.len() == 0 {
            &&& s2.waiting_password == false
            &&& is_reply(r, ResultCode::UserLoggedIn, "Welcome "@ + name@ + "!"@)
        } else {
            &&& s2.waiting_password == true
            &&& is_reply(
                r,
                ResultCode::UserNameOkayNeedPassword,
                "Login Ok password needed for "@ + name@,
            )
        }
    } else if user_index(s.config.users@, name@) < s.config.users@.len() {
        let u = s.config.users@[user_index(s.config.users@, name@)];
        &&& eq_except_auth(s, s2)
        &&& s2.is_admin == false
        &&& s2.name matches Some(n) && n@ == name@
        &&& if u.password@.len() == 0 {
            &&& s2.waiting_password == false
            &&& is_reply(r, ResultCode::UserLoggedIn, "Welcome "@ + name@ + "!"@)
        } else {
            &&& s2.waiting_password == true
            &&& is_reply(
                r,
                ResultCode::UserNameOkayNeedPassword,
                "Login Ok password needed for "@ + name@,
            )
        }
    } else {
        &&& eq_except_auth(s, s2)
        &&& s2.name == s.name
        &&& s2.waiting_password == s.waiting_password
        &&& s2.is_admin == false
        &&& is_reply(r, ResultCode::NotLoggedIn, "Unknown user..."@)
    }
}

/// What `PASS secret` does while a password is awaited: a match completes
/// authentication; a mismatch clears the pending name, so the client can
/// retry with `USER`.
pub open spec fn pass_post(s: Session, s2: Session, pass: String, r: Request) -> bool {
    let ok = if s.is_admin {
        s.config.admin matches Some(a) && a.password@ == pass@
    } else {
        credentials_match(s.config.users@, s.name->0@, pass@)
    };
    if ok {
        &&& eq_except_auth(s, s2)
        &&& s2.name == s.name
        &&& s2.is_admin == s.is_admin
        &&& s2.waiting_password == false
        &&& is_reply(r, ResultCode::UserLoggedIn, "Welcome "@ + s.name->0@)
    } else {
        &&& eq_except_auth(s, s2)
        &&& s2.name is None
        &&& s2.is_admin == false
        &&& s2.waiting_password == false
        &&& is_reply(r, ResultCode::NotLoggedIn, "Invalid password"@)
    }
}

/// `PWD`: the working directory, quoted, with a trailing space.
pub open spec fn pwd_post(s: Session, s2: Session, r: Request) -> bool {
    &&& s2 == s
    &&& is_reply(r, ResultCode::PATHNAMECreated, seq!['"'] + s.cwd@ + seq!['"', ' '])
}

/// `CDUP`: the working directory moves to its parent (the root stays put).
pub open spec fn cdup_post(s: Session, s2: Session, r: Request) -> bool {
    &&& eq_except_auth_and_cwd(s, s2)
    &&& sbytes(s2.cwd@) == parent_vpath(sbytes(s.cwd@))
    &&& is_reply(r, ResultCode::Okay, "Done"@)
}

pub open spec fn eq_except_auth_and_cwd(a: Session, b: Session) -> bool {
    &&& a.server_root == b.server_root
    &&& a.config == b.config
    &&& a.data_port == b.data_port
    &&& a.has_data_channel == b.has_data_channel
    &&& a.transfer_type == b.transfer_type
    &&& a.name == b.name
    &&& a.is_admin == b.is_admin
    &&& a.waiting_password == b.waiting_password
}

/// `CWD dir` asks for the joined target to be canonicalized.
pub open spec fn cwd_cmd_post(s: Session, s2: Session, dir: String, r: Request) -> bool {
    &&& s2 == s
    &&& r matches Request::Resolve { target, op: ResolveOp::Cwd { dir: d } } && sbytes(target@)
        == real_of(sbytes(s.server_root@), join_vpath(sbytes(s.cwd@), sbytes(dir@))) && d == dir
}

/// `MKD p`: the joined target's parent is canonicalized; its last segment
/// is what will be created there.
pub open spec fn mkd_cmd_post(s: Session, s2: Session, p: String, r: Request) -> bool {
    let joined = join_vpath(sbytes(s.cwd@), sbytes(p@));
    &&& s2 == s
    &&& r matches Request::Resolve { target, op: ResolveOp::Mkd { filename } } && sbytes(target@)
        == real_of(sbytes(s.server_root@), parent_vpath(joined)) && sbytes(filename@)
        == filename_vpath(joined)
}

/// `RMD p` asks for the joined target to be canonicalized.
pub open spec fn rmd_cmd_post(s: Session, s2: Session, p: String, r: Request) -> bool {
    &&& s2 == s
    &&& r matches Request::Resolve { target, op: ResolveOp::Rmd } && sbytes(target@) == real_of(
        sbytes(s.server_root@),
        join_vpath(sbytes(s.cwd@), sbytes(p@)),
    )
}

/// `LIST [p]` needs an open data channel, then asks for the target (the
/// working directory when no path is given) to be canonicalized.
pub open spec fn list_cmd_post(s: Session, s2: Session, p: Option<String>, r: Request) -> bool {
    if !s.has_data_channel {
        &&& s2 == s
        &&& is_reply(r, ResultCode::ConnectionClosed, "No opened data connection"@)
    } else {
        let tv = match p {
            Option::Some(q) => join_vpath(sbytes(s.cwd@), sbytes(q@)),
            Option::None => sbytes(s.cwd@),
        };
        &&& s2 == s
        &&& r matches Request::Resolve { target, op: ResolveOp::List } && sbytes(target@) == real_of(
            sbytes(s.server_root@),
            tv,
        )
    }
}

/// `RETR p` needs an open data channel, then asks for the joined target to
/// be canonicalized; the joined virtual path rides along for the failure
/// message.
pub open spec fn retr_cmd_post(s: Session, s2: Session, p: String, r: Request) -> bool {
    if !s.has_data_channel {
        &&& s2 == s
        &&& is_reply(r, ResultCode::ConnectionClosed, "No opened data connection"@)
    } else {
        let joined = join_vpath(sbytes(s.cwd@), sbytes(p@));
        &&& s2 == s
        &&& r matches Request::Resolve { target, op: ResolveOp::Retr { path } } && sbytes(target@)
            == real_of(sbytes(s.server_root@), joined) && sbytes(path@) == joined
    }
}

/// `STOR p`: a parent-directory segment anywhere in the candidate, or the
/// protected configuration file as target (for anyone but the admin), is
/// refused with a permission error before anything else — whatever the data
/// channel's state. Then an open data channel is required, and the upload
/// target is the joined path below the root, never canonicalized (it need
/// not exist), which the checks above keep inside the sandbox.
pub open spec fn stor_cmd_post(s: Session, s2: Session, p: String, r: Request) -> bool {
    let joined = join_vpath(sbytes(s.cwd@), sbytes(p@));
    if has_dotdot(sbytes(p@)) || (!s.is_admin && joined == config_file_vpath()) {
        &&& s2 == s
        &&& is_reply(r, ResultCode::FileNotFound, "Permission denied"@)
    } else if !s.has_data_channel {
        &&& s2 == s
        &&& is_reply(r, ResultCode::ConnectionClosed, "No opened data connection"@)
    } else {
        &&& s2 == s
        &&& r matches Request::Store { target, reply } && sbytes(target@) == real_of(
            sbytes(s.server_root@),
            joined,
        ) && is_answer(reply, ResultCode::DataConnectionAlreadyOpen, "Starting to send file..."@)
    }
}

/// `PASV`: an unconsumed data channel is kept; otherwise the surroundings
/// are asked to listen on the requested port (0 when none was requested).
pub open spec fn pasv_cmd_post(s: Session, s2: Session, r: Request) -> bool {
    if s.has_data_channel {
        &&& s2 == s
        &&& is_reply(r, ResultCode::DataConnectionAlreadyOpen, "Already listening..."@)
    } else {
        &&& s2 == s
        &&& r matches Request::PasvListen { port } && port == (match s.data_port {
            Option::Some(p) => p,
            Option::None => 0u16,
        })
    }
}

impl Session {
    /// A fresh session: root directory, no name, no data channel, ASCII
    /// transfers.
    pub fn new(server_root: String, config: Config) -> (s: Session)
        ensures
            s.server_root == server_root,
            s.config == config,
            s.cwd@ == "/"@,
            s.name is None,
            s.data_port is None,
            s.has_data_channel == false,
            s.transfer_type == TransferType::Ascii,
            s.is_admin == false,
            s.waiting_password == false,
            session_wf(s),
    {
        proof {
            reveal_strlit("/");
            crate::paths::lemma_slash_bytes();
        }
        let s = Session {
            server_root,
            config,
            cwd: "/".to_owned(),
            name: None,
            data_port: None,
            has_data_channel: false,
            transfer_type: TransferType::Ascii,
            is_admin: false,
            waiting_password: false,
        };
        proof {
            assert(wf_vpath(seq![47u8]));
        }
        s
    }

    /// Authentication is complete.
    pub fn is_logged(&self) -> (r: bool)
        ensures
            r == spec_is_logged(*self),
    {
        self.name.is_some() && !self.waiting_password
    }

    /// Consumes one decoded command and decides what happens: a reply, a
    /// close, or a request for outside work. Until authentication
    /// completes, every transfer or navigation command is refused with the
    /// not-logged-in reply and nothing changes — the gating law.
    pub fn handle_cmd(&mut self, cmd: Command) -> (r: Request)
        requires
            session_wf(*old(self)),
        ensures
            session_wf(*final(self)),
            final(self).server_root == old(self).server_root,
            final(self).config == old(self).config,
            // Gating: before login, transfer and navigation commands do
            // nothing but draw the not-logged-in reply.
            !spec_is_logged(*old(self)) && is_gated_cmd(cmd) ==> *final(self) == *old(self) && is_reply(
                r,
                ResultCode::NotLoggedIn,
                "Please log first"@,
            ),
            ({
                let s = *old(self);
                let s2 = *final(self);
                match cmd {
                    Command::User(name) => user_post(s, s2, name, r),
                    Command::Pass(p) => if !spec_is_logged(s) && s.name is Some
                        && s.waiting_password {
                        pass_post(s, s2, p, r)
                    } else {
                        s2 == s && is_reply(r, ResultCode::NotLoggedIn, "Please log first"@)
                    },
                    Command::NoOp => s2 == s && is_reply(r, ResultCode::Okay, "Doing nothing"@),
                    Command::Type(t) => {
                        &&& eq_except_type(s, s2)
                        &&& s2.transfer_type == t
                        &&& is_reply(r, ResultCode::Okay, "Transfer type changed successfully"@)
                    },
                    Command::Syst => s2 == s && is_reply(r, ResultCode::Okay, "I won't tell!"@),
                    Command::Unknown(txt) => s2 == s && is_reply(
                        r,
                        ResultCode::UnknownCommand,
                        seq!['"'] + txt@ + "\": Not implemented"@,
                    ),
                    Command::Quit => s2 == s && (r matches Request::AnswerThenClose(a) && is_answer(
                        a,
                        ResultCode::ServiceClosingControlConnection,
                        "Closing connection..."@,
                    )),
                    Command::Cwd(dir) => spec_is_logged(s) ==> cwd_cmd_post(s, s2, dir, r),
                    Command::List(p) => spec_is_logged(s) ==> list_cmd_post(s, s2, p, r),
                    Command::Pasv => spec_is_logged(s) ==> pasv_cmd_post(s, s2, r),
                    Command::Port(p) => spec_is_logged(s) ==> {
                        &&& eq_except_port(s, s2)
                        &&& s2.data_port == Some(p)
                        &&& is_reply(
                            r,
                            ResultCode::Okay,
                            "Data port is now "@ + dec_chars(p as nat),
                        )
                    },
                    Command::Pwd => spec_is_logged(s) ==> pwd_post(s, s2, r),
                    Command::Retr(p) => spec_is_logged(s) ==> retr_cmd_post(s, s2, p, r),
                    Command::Stor(p) => spec_is_logged(s) ==> stor_cmd_post(s, s2, p, r),
                    Command::CdUp => spec_is_logged(s) ==> cdup_post(s, s2, r),
                    Command::Mkd(p) => spec_is_logged(s) ==> mkd_cmd_post(s, s2, p, r),
                    Command::Rmd(p) => spec_is_logged(s) ==> rmd_cmd_post(s, s2, p, r),
                }
            }),
    {
        if self.is_logged() {
            match cmd {
                Command::Cwd(directory) => return self.cwd_begin(directory),
                Command::List(path) => return self.list_begin(path),
                Command::Pasv => return self.pasv_begin(),
                Command::Port(port) => {
                    self.data_port = Some(port);
                    let msg = glue2("Data port is now ", u64_dec_string(port as u64).as_str());
                    return Request::Answer(Answer::new(ResultCode::Okay, msg.as_str()));
                },
                Command::Pwd => {
                    let msg = glue3("\"", self.cwd.as_str(), "\" ");
                    proof {
                        reveal_strlit("\"");
                        reveal_strlit("\" ");
                        assert(msg@ =~= seq!['"'] + self.cwd@ + seq!['"', ' ']);
                    }
                    return Request::Answer(Answer::new(ResultCode::PATHNAMECreated, msg.as_str()));
                },
                Command::Retr(file) => return self.retr_begin(file),
                Command::Stor(file) => return self.stor_begin(file),
                Command::CdUp => {
                    let parent = parent_of(self.cwd.as_str());
                    proof {
                        crate::paths::lemma_parent_wf(sbytes(old(self).cwd@));
                    }
                    self.cwd = parent;
                    return Request::Answer(Answer::new(ResultCode::Okay, "Done"));
                },
                Command::Mkd(path) => return self.mkd_begin(path),
                Command::Rmd(path) => return self.rmd_begin(path),
                other => {
                    return self.handle_common(other);
                },
            }
        } else if self.name.is_some() && self.waiting_password {
            match cmd {
                Command::Pass(content) => return self.do_pass(content),
                other => {
                    return self.handle_common(other);
                },
            }
        } else {
            return self.handle_common(cmd);
        }
    }

    /// The commands available in every state, and the not-logged-in refusal
    /// for everything else.
    fn handle_common(&mut self, cmd: Command) -> (r: Request)
        requires
            session_wf(*old(self)),
            !(cmd is Pass) || spec_is_logged(*old(self)) || !(old(self).name is Some
                && old(self).waiting_password),
            !(cmd is Cwd) && !(cmd is List) && !(cmd is Pasv) && !(cmd is Port) && !(cmd is Pwd)
                && !(cmd is Retr) && !(cmd is Stor) && !(cmd is CdUp) && !(cmd is Mkd) && !(
            cmd is Rmd) || !spec_is_logged(*old(self)),
        ensures
            session_wf(*final(self)),
            final(self).server_root == old(self).server_root,
            final(self).config == old(self).config,
            ({
                let s = *old(self);
                let s2 = *final(self);
                match cmd {
                    Command::User(name) => user_post(s, s2, name, r),
                    Command::NoOp => s2 == s && is_reply(r, ResultCode::Okay, "Doing nothing"@),
                    Command::Type(t) => {
                        &&& eq_except_type(s, s2)
                        &&& s2.transfer_type == t
                        &&& is_reply(r, ResultCode::Okay, "Transfer type changed successfully"@)
                    },
                    Command::Syst => s2 == s && is_reply(r, ResultCode::Okay, "I won't tell!"@),
                    Command::Unknown(txt) => s2 == s && is_reply(
                        r,
                        ResultCode::UnknownCommand,
                        seq!['"'] + txt@ + "\": Not implemented"@,
                    ),
                    Command::Quit => s2 == s && (r matches Request::AnswerThenClose(a) && is_answer(
                        a,
                        ResultCode::ServiceClosingControlConnection,
                        "Closing connection..."@,
                    )),
                    _ => s2 == s && is_reply(r, ResultCode::NotLoggedIn, "Please log first"@),
                }
            }),
    {
        match cmd {
            Command::User(content) => self.do_user(content),
            Command::NoOp => Request::Answer(Answer::new(ResultCode::Okay, "Doing nothing")),
            Command::Type(typ) => {
                self.transfer_type = typ;
                Request::Answer(
                    Answer::new(ResultCode::Okay, "Transfer type changed successfully"),
                )
            },
            Command::Syst => Request::Answer(Answer::new(ResultCode::Okay, "I won't tell!")),
            Command::Unknown(s) => {
                let msg = glue3("\"", s.as_str(), "\": Not implemented");
                proof {
                    reveal_strlit("\"");
                    assert(msg@ =~= seq!['"'] + s@ + "\": Not implemented"@);
                }
                Request::Answer(Answer::new(ResultCode::UnknownCommand, msg.as_str()))
            },
            Command::Quit => Request::AnswerThenClose(
                Answer::new(ResultCode::ServiceClosingControlConnection, "Closing connection..."),
            ),
            _ => Request::Answer(Answer::new(ResultCode::NotLoggedIn, "Please log first")),
        }
    }

    /// Handles `USER`.
    fn do_user(&mut self, content: String) -> (r: Request)
        requires
            session_wf(*old(self)),
        ensures
            session_wf(*final(self)),
            user_post(*old(self), *final(self), content, r),
    {
        if content.as_str().is_empty() {
            return Request::Answer(
                Answer::new(ResultCode::InvalidParameterOrArgument, "Invalid username"),
            );
        }
        let mut known = false;
        let mut admin_hit = false;
        let mut pass_required = true;
        match &self.config.admin {
            Some(admin) => {
                if admin.name == content {
                    known = true;
                    admin_hit = true;
                    pass_required = !admin.password.as_str().is_empty();
                }
            },
            None => {},
        }
        if !known {
            let n = self.config.users.len();
            let mut k: usize = 0;
            while k < n && !known
                invariant
                    0 <= k <= n,
                    n == self.config.users@.len(),
                    !known ==> forall|j: int|
                        0 <= j < k ==> (#[trigger] self.config.users@[j]).name@ != content@,
                    known ==> k < n && self.config.users@[k as int].name@ == content@ && (forall|
                        j: int,
                    |
                        0 <= j < k ==> (#[trigger] self.config.users@[j]).name@ != content@)
                        && pass_required == (self.config.users@[k as int].password@.len() != 0),
                decreases n - k, (if known { 0int } else { 1int }),
            {
                if self.config.users[k].name == content {
                    known = true;
                    pass_required = !self.config.users[k].password.as_str().is_empty();
                } else {
                    k += 1;
                }
            }
            proof {
                if known {
                    lemma_user_index_is(self.config.users@, content@, 0, k as int);
                } else {
                    lemma_user_index_is(self.config.users@, content@, 0, n as int);
                }
            }
        }
        self.is_admin = admin_hit;
        if !known {
            return Request::Answer(Answer::new(ResultCode::NotLoggedIn, "Unknown user..."));
        }
        let msg_ok = glue3("Welcome ", content.as_str(), "!");
        let msg_pw = glue2("Login Ok password needed for ", content.as_str());
        self.name = Some(content);
        if pass_required {
            self.waiting_password = true;
            Request::Answer(Answer::new(ResultCode::UserNameOkayNeedPassword, msg_pw.as_str()))
        } else {
            self.waiting_password = false;
            Request::Answer(Answer::new(ResultCode::UserLoggedIn, msg_ok.as_str()))
        }
    }

    /// Handles `PASS` while a password is awaited.
    fn do_pass(&mut self, content: String) -> (r: Request)
        requires
            session_wf(*old(self)),
            old(self).name is Some,
            old(self).waiting_password,
        ensures
            session_wf(*final(self)),
            pass_post(*old(self), *final(self), content, r),
    {
        let mut ok = false;
        if self.is_admin {
            match &self.config.admin {
                Some(admin) => {
                    ok = admin.password == content;
                },
                None => {},
            }
        } else {
            let pending = match &self.name {
                Some(n) => n,
                None => {
                    proof {
                        assert(false);
                    }
                    &content
                },
            };
            let n = self.config.users.len();
            let mut k: usize = 0;
            while k < n && !ok
                invariant
                    0 <= k <= n,
                    n == self.config.users@.len(),
                    pending@ == self.name->0@,
                    !ok ==> forall|j: int|
                        0 <= j < k ==> !((#[trigger] self.config.users@[j]).name@ == pending@
                            && self.config.users@[j].password@ == content@),
                    ok ==> credentials_match(self.config.users@, self.name->0@, content@),
                decreases n - k, (if ok { 0int } else { 1int }),
            {
                if self.config.users[k].name == *pending && self.config.users[k].password
                    == content {
                    ok = true;
                } else {
                    k += 1;
                }
            }
        }
        if ok {
            self.waiting_password = false;
            let msg = match &self.name {
                Some(n) => glue2("Welcome ", n.as_str()),
                None => {
                    proof {
                        assert(false);
                    }
                    glue2("", "")
                },
            };
            Request::Answer(Answer::new(ResultCode::UserLoggedIn, msg.as_str()))
        } else {
            self.waiting_password = false;
            self.name = None;
            self.is_admin = false;
            Request::Answer(Answer::new(ResultCode::NotLoggedIn, "Invalid password"))
        }
    }

    fn cwd_begin(&mut self, directory: String) -> (r: Request)
        requires
            session_wf(*old(self)),
        ensures
            *final(self) == *old(self),
            cwd_cmd_post(*old(self), *final(self), directory, r),
    {
        let joined = join_virtual(self.cwd.as_str(), directory.as_str());
        let target = to_real(self.server_root.as_str(), joined.as_str());
        Request::Resolve { target, op: ResolveOp::Cwd { dir: directory } }
    }

    fn mkd_begin(&mut self, path: String) -> (r: Request)
        requires
            session_wf(*old(self)),
        ensures
            *final(self) == *old(self),
            mkd_cmd_post(*old(self), *final(self), path, r),
    {
        let joined = join_virtual(self.cwd.as_str(), path.as_str());
        let parent = parent_of(joined.as_str());
        let filename = filename_of(joined.as_str());
        let target = to_real(self.server_root.as_str(), parent.as_str());
        Request::Resolve { target, op: ResolveOp::Mkd { filename } }
    }

    fn rmd_begin(&mut self, path: String) -> (r: Request)
        requires
            session_wf(*old(self)),
        ensures
            *final(self) == *old(self),
            rmd_cmd_post(*old(self), *final(self), path, r),
    {
        let joined = join_virtual(self.cwd.as_str(), path.as_str());
        let target = to_real(self.server_root.as_str(), joined.as_str());
        Request::Resolve { target, op: ResolveOp::Rmd }
    }

    fn list_begin(&mut self, path: Option<String>) -> (r: Request)
        requires
            session_wf(*old(self)),
        ensures
            *final(self) == *old(self),
            list_cmd_post(*old(self), *final(self), path, r),
    {
        if !self.has_data_channel {
            return Request::Answer(
                Answer::new(ResultCode::ConnectionClosed, "No opened data connection"),
            );
        }
        let target = match &path {
            Some(p) => join_virtual(self.cwd.as_str(), p.as_str()),
            None => self.cwd.clone(),
        };
        let target = to_real(self.server_root.as_str(), target.as_str());
        Request::Resolve { target, op: ResolveOp::List }
    }

    fn retr_begin(&mut self, path: String) -> (r: Request)
        requires
            session_wf(*old(self)),
        ensures
            *final(self) == *old(self),
            retr_cmd_post(*old(self), *final(self), path, r),
    {
        if !self.has_data_channel {
            return Request::Answer(
                Answer::new(ResultCode::ConnectionClosed, "No opened data connection"),
            );
        }
        let joined = join_virtual(self.cwd.as_str(), path.as_str());
        let target = to_real(self.server_root.as_str(), joined.as_str());
        Request::Resolve { target, op: ResolveOp::Retr { path: joined } }
    }

    fn stor_begin(&mut self, path: String) -> (r: Request)
        requires
            session_wf(*old(self)),
        ensures
            *final(self) == *old(self),
            stor_cmd_post(*old(self), *final(self), path, r),
    {
        let joined = join_virtual(self.cwd.as_str(), path.as_str());
        if invalid_path(path.as_str()) || (!self.is_admin && bytes_eq(
            joined.as_str().as_bytes(),
            "/config.toml".as_bytes(),
        )) {
            return Request::Answer(Answer::new(ResultCode::FileNotFound, "Permission denied"));
        }
        if !self.has_data_channel {
            return Request::Answer(
                Answer::new(ResultCode::ConnectionClosed, "No opened data connection"),
            );
        }
        let target = to_real(self.server_root.as_str(), joined.as_str());
        Request::Store {
            target,
            reply: Answer::new(ResultCode::DataConnectionAlreadyOpen, "Starting to send file..."),
        }
    }

    fn pasv_begin(&mut self) -> (r: Request)
        requires
            session_wf(*old(self)),
        ensures
            *final(self) == *old(self),
            pasv_cmd_post(*old(self), *final(self), r),
    {
        if self.has_data_channel {
            return Request::Answer(
                Answer::new(ResultCode::DataConnectionAlreadyOpen, "Already listening..."),
            );
        }
        let port = match self.data_port {
            Some(p) => p,
            None => 0,
        };
        Request::PasvListen { port }
    }

    /// The surroundings accepted one data connection: the session now owns
    /// it, until a transfer consumes it.
    pub fn data_opened(&mut self)
        requires
            session_wf(*old(self)),
        ensures
            session_wf(*final(self)),
            eq_except_channel(*old(self), *final(self)),
            final(self).has_data_channel == true,
    {
        self.has_data_channel = true;
    }

    /// Tears the data channel down after a transfer; the closing reply goes
    /// out when a channel was open.
    pub fn close_data(&mut self) -> (r: Option<Answer>)
        requires
            session_wf(*old(self)),
        ensures
            session_wf(*final(self)),
            eq_except_channel(*old(self), *final(self)),
            final(self).has_data_channel == false,
            old(self).has_data_channel ==> (r matches Some(a) && is_answer(
                a,
                ResultCode::ClosingDataConnection,
                "Transfer done"@,
            )),
            !old(self).has_data_channel ==> r is None,
    {
        if self.has_data_channel {
            self.has_data_channel = false;
            Some(Answer::new(ResultCode::ClosingDataConnection, "Transfer done"))
        } else {
            None
        }
    }

    /// The upload finished (or failed): the data channel is consumed and
    /// the closing (or error) reply goes out.
    pub fn stor_done(&mut self, ok: bool) -> (r: Answer)
        requires
            session_wf(*old(self)),
        ensures
            session_wf(*final(self)),
            eq_except_channel(*old(self), *final(self)),
            final(self).has_data_channel == false,
            ok ==> is_answer(r, ResultCode::ClosingDataConnection, "Transfer done"@),
            !ok ==> is_answer(r, ResultCode::LocalErrorInProcessing, "Local error in processing"@),
    {
        self.has_data_channel = false;
        if ok {
            Answer::new(ResultCode::ClosingDataConnection, "Transfer done")
        } else {
            Answer::new(ResultCode::LocalErrorInProcessing, "Local error in processing")
        }
    }

    /// Decides what a canonicalization result means for the command that
    /// asked for it. The sandbox check happens here: a path outside the
    /// root is never acted on. `is_dir` and `is_file` report what the
    /// canonical path names on disk.
    pub fn resume_resolved(
        &mut self,
        op: ResolveOp,
        canonical: Option<String>,
        is_dir: bool,
        is_file: bool,
    ) -> (o: Outcome)
        requires
            session_wf(*old(self)),
        ensures
            session_wf(*final(self)),
            final(self).server_root == old(self).server_root,
            final(self).config == old(self).config,
            ({
                let s = *old(self);
                let s2 = *final(self);
                let root = sbytes(s.server_root@);
                let accepted = canonical matches Some(q) && is_under(root, sbytes(q@));
                match op {
                    ResolveOp::Cwd { dir } => {
                        let good = canonical matches Some(q) && is_under(root, sbytes(q@))
                            && wf_vpath(strip_root_spec(root, sbytes(q@)));
                        if good {
                            &&& eq_except_auth_and_cwd(s, s2)
                            &&& sbytes(s2.cwd@) == strip_root_spec(
                                root,
                                sbytes(canonical->0@),
                            )
                            &&& o matches Outcome::Answer(a) && is_answer(
                                a,
                                ResultCode::RequestedFileActionOkay,
                                "Directory changed to \""@ + dir@ + "\""@,
                            )
                        } else {
                            &&& s2 == s
                            &&& o matches Outcome::Answer(a) && is_answer(
                                a,
                                ResultCode::FileNotFound,
                                "No such file or directory"@,
                            )
                        }
                    },
                    ResolveOp::Mkd { filename } => {
                        if accepted && is_dir {
                            &&& s2 == s
                            &&& o matches Outcome::CreateDir { target } && sbytes(target@) == sbytes(
                                canonical->0@,
                            ) + seq![47u8] + sbytes(filename@)
                        } else {
                            &&& s2 == s
                            &&& o matches Outcome::Answer(a) && is_answer(
                                a,
                                ResultCode::FileNotFound,
                                "Couldn't create folder"@,
                            )
                        }
                    },
                    ResolveOp::Rmd => {
                        if accepted {
                            &&& s2 == s
                            &&& o matches Outcome::RemoveDir { target } && sbytes(target@) == sbytes(
                                canonical->0@,
                            )
                        } else {
                            &&& s2 == s
                            &&& o matches Outcome::Answer(a) && is_answer(
                                a,
                                ResultCode::FileNotFound,
                                "Couldn't remove folder"@,
                            )
                        }
                    },
                    ResolveOp::List => {
                        if accepted {
                            &&& s2 == s
                            &&& if is_dir {
                                o matches Outcome::ListDir { target, reply } && sbytes(target@)
                                    == sbytes(canonical->0@) && is_answer(
                                    reply,
                                    ResultCode::DataConnectionAlreadyOpen,
                                    "Starting to list directory..."@,
                                )
                            } else {
                                o matches Outcome::ListFile { target, reply } && sbytes(target@)
                                    == sbytes(canonical->0@) && is_answer(
                                    reply,
                                    ResultCode::DataConnectionAlreadyOpen,
                                    "Starting to list directory..."@,
                                )
                            }
                        } else {
                            &&& s2 == s
                            &&& o matches Outcome::Answer(a) && is_answer(
                                a,
                                ResultCode::InvalidParameterOrArgument,
                                "No such file or directory"@,
                            )
                        }
                    },
                    ResolveOp::Retr { path } => {
                        let allowed = accepted && is_file && (s.is_admin || sbytes(canonical->0@)
                            != real_of(root, config_file_vpath()));
                        if allowed {
                            &&& s2 == s
                            &&& o matches Outcome::SendFile { target, reply } && sbytes(target@)
                                == sbytes(canonical->0@) && is_answer(
                                reply,
                                ResultCode::DataConnectionAlreadyOpen,
                                "Starting to send file..."@,
                            )
                        } else {
                            &&& s2 == s
                            &&& o matches Outcome::Answer(a) && is_answer(
                                a,
                                ResultCode::LocalErrorInProcessing,
                                seq!['"'] + path@ + "\" doesn't exist"@,
                            )
                        }
                    },
                }
            }),
    {
        match op {
            ResolveOp::Cwd { dir } => {
                match canonical {
                    Some(q) => {
                        if sandbox_accept(self.server_root.as_str(), q.as_str()) {
                            let stripped = strip_root(self.server_root.as_str(), q.as_str());
                            if vpath_wf(stripped.as_str()) {
                                self.cwd = stripped;
                                let msg = glue3("Directory changed to \"", dir.as_str(), "\"");
                                proof {
                                    reveal_strlit("\"");
                                    reveal_strlit("Directory changed to \"");
                                }
                                return Outcome::Answer(
                                    Answer::new(
                                        ResultCode::RequestedFileActionOkay,
                                        msg.as_str(),
                                    ),
                                );
                            }
                        }
                        Outcome::Answer(
                            Answer::new(ResultCode::FileNotFound, "No such file or directory"),
                        )
                    },
                    None => Outcome::Answer(
                        Answer::new(ResultCode::FileNotFound, "No such file or directory"),
                    ),
                }
            },
            ResolveOp::Mkd { filename } => {
                match canonical {
                    Some(q) => {
                        if sandbox_accept(self.server_root.as_str(), q.as_str()) && is_dir {
                            let target = glue3(q.as_str(), "/", filename.as_str());
                            proof {
                                reveal_strlit("/");
                                crate::paths::lemma_slash_bytes();
                                crate::text::lemma_encode_utf8_concat(q@, "/"@);
                                crate::text::lemma_encode_utf8_concat(q@ + "/"@, filename@);
                                assert(sbytes(target@) =~= sbytes(q@) + seq![47u8] + sbytes(
                                    filename@,
                                ));
                            }
                            Outcome::CreateDir { target }
                        } else {
                            Outcome::Answer(
                                Answer::new(ResultCode::FileNotFound, "Couldn't create folder"),
                            )
                        }
                    },
                    None => Outcome::Answer(
                        Answer::new(ResultCode::FileNotFound, "Couldn't create folder"),
                    ),
                }
            },
            ResolveOp::Rmd => {
                match canonical {
                    Some(q) => {
                        if sandbox_accept(self.server_root.as_str(), q.as_str()) {
                            Outcome::RemoveDir { target: q }
                        } else {
                            Outcome::Answer(
                                Answer::new(ResultCode::FileNotFound, "Couldn't remove folder"),
                            )
                        }
                    },
                    None => Outcome::Answer(
                        Answer::new(ResultCode::FileNotFound, "Couldn't remove folder"),
                    ),
                }
            },
            ResolveOp::List => {
                match canonical {
                    Some(q) => {
                        if sandbox_accept(self.server_root.as_str(), q.as_str()) {
                            let reply = Answer::new(
                                ResultCode::DataConnectionAlreadyOpen,
                                "Starting to list directory...",
                            );
                            if is_dir {
                                Outcome::ListDir { target: q, reply }
                            } else {
                                Outcome::ListFile { target: q, reply }
                            }
                        } else {
                            Outcome::Answer(
                                Answer::new(
                                    ResultCode::InvalidParameterOrArgument,
                                    "No such file or directory",
                                ),
                            )
                        }
                    },
                    None => Outcome::Answer(
                        Answer::new(
                            ResultCode::InvalidParameterOrArgument,
                            "No such file or directory",
                        ),
                    ),
                }
            },
            ResolveOp::Retr { path } => {
                let fail_msg = glue3("\"", path.as_str(), "\" doesn't exist");
                proof {
                    reveal_strlit("\"");
                    assert(fail_msg@ =~= seq!['"'] + path@ + "\" doesn't exist"@);
                }
                match canonical {
                    Some(q) => {
                        if sandbox_accept(self.server_root.as_str(), q.as_str()) && is_file {
                            let protected = to_real(self.server_root.as_str(), "/config.toml");
                            if self.is_admin || !bytes_eq(
                                q.as_str().as_bytes(),
                                protected.as_str().as_bytes(),
                            ) {
                                return Outcome::SendFile {
                                    target: q,
                                    reply: Answer::new(
                                        ResultCode::DataConnectionAlreadyOpen,
                                        "Starting to send file...",
                                    ),
                                };
                            }
                        }
                        Outcome::Answer(
                            Answer::new(ResultCode::LocalErrorInProcessing, fail_msg.as_str()),
                        )
                    },
                    None => Outcome::Answer(
                        Answer::new(ResultCode::LocalErrorInProcessing, fail_msg.as_str()),
                    ),
                }
            },
        }
    }

    /// Whether a directory entry may be shown: the configuration file below
    /// the root is hidden from everyone but the admin.
    pub fn entry_visible(&self, target: &str) -> (r: bool)
        ensures
            r == (self.is_admin || sbytes(target@) != real_of(
                sbytes(self.server_root@),
                config_file_vpath(),
            )),
    {
        if self.is_admin {
            return true;
        }
        let protected = to_real(self.server_root.as_str(), "/config.toml");
        !bytes_eq(target.as_bytes(), protected.as_str().as_bytes())
    }
}

pub open spec fn eq_except_type(a: Session, b: Session) -> bool {
    &&& a.server_root == b.server_root
    &&& a.config == b.config
    &&& a.cwd == b.cwd
    &&& a.data_port == b.data_port
    &&& a.has_data_channel == b.has_data_channel
    &&& a.name == b.name
    &&& a.is_admin == b.is_admin
    &&& a.waiting_password == b.waiting_password
}

pub open spec fn eq_except_port(a: Session, b: Session) -> bool {
    &&& a.server_root == b.server_root
    &&& a.config == b.config
    &&& a.cwd == b.cwd
    &&& a.has_data_channel == b.has_data_channel
    &&& a.transfer_type == b.transfer_type
    &&& a.name == b.name
    &&& a.is_admin == b.is_admin
    &&& a.waiting_password == b.waiting_password
}

pub open spec fn eq_except_channel(a: Session, b: Session) -> bool {
    &&& a.server_root == b.server_root
    &&& a.config == b.config
    &&& a.cwd == b.cwd
    &&& a.data_port == b.data_port
    &&& a.transfer_type == b.transfer_type
    &&& a.name == b.name
    &&& a.is_admin == b.is_admin
    &&& a.waiting_password == b.waiting_password
}

/// The passive-mode reply: the loopback address and the bound port, high
/// byte and low byte, in the protocol's comma-separated encoding.
pub fn pasv_answer(port: u16) -> (a: Answer)
    ensures
        a.code == ResultCode::EnteringPassiveMode,
        a.message@ == "127,0,0,1,"@ + dec_chars((port / 256) as nat) + ","@ + dec_chars(
            (port % 256) as nat,
        ),
{
    let hi = u64_dec_string((port / 256) as u64);
    let lo = u64_dec_string((port % 256) as u64);
    let msg = "127,0,0,1,".to_owned().concat(hi.as_str()).concat(",").concat(lo.as_str());
    Answer::new(ResultCode::EnteringPassiveMode, msg.as_str())
}

/// The reply after the filesystem made (or failed to make) a directory.
pub fn mkd_done(ok: bool) -> (a: Answer)
    ensures
        ok ==> is_answer(a, ResultCode::PATHNAMECreated, "Folder successfully created!"@),
        !ok ==> is_answer(a, ResultCode::FileNotFound, "Couldn't create folder"@),
{
    if ok {
        Answer::new(ResultCode::PATHNAMECreated, "Folder successfully created!")
    } else {
        Answer::new(ResultCode::FileNotFound, "Couldn't create folder")
    }
}

/// The reply after the filesystem removed (or failed to remove) a
/// directory.
pub fn rmd_done(ok: bool) -> (a: Answer)
    ensures
        ok ==> is_answer(a, ResultCode::RequestedFileActionOkay, "successfully removed"@),
        !ok ==> is_answer(a, ResultCode::FileNotFound, "Couldn't remove folder"@),
{
    if ok {
        Answer::new(ResultCode::RequestedFileActionOkay, "successfully removed")
    } else {
        Answer::new(ResultCode::FileNotFound, "Couldn't remove folder")
    }
}

/// Glues two string slices.
fn glue2(a: &str, b: &str) -> (r: String)
    ensures
        r@ == a@ + b@,
{
    a.to_owned().concat(b)
}

/// Glues three string slices.
fn glue3(a: &str, b: &str, c: &str) -> (r: String)
    ensures
        r@ == a@ + b@ + c@,
{
    a.to_owned().concat(b).concat(c)
}

} // verus!
