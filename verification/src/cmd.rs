//! The command grammar and its parser. One line of bytes (CRLF already
//! stripped, possibly empty, possibly not UTF-8) parses to a [`Command`] or
//! to a reported failure; no input is rejected by anything worse than an
//! error value. The verb is matched case-insensitively; a verb outside the
//! table yields [`Command::Unknown`], which the session answers with "not
//! implemented" rather than treating as malformed.

use vstd::prelude::*;
use vstd::utf8::{decode_utf8, valid_utf8};

use crate::error::Error;
use crate::text::{
    ascii_bytes, bytes_eq, dec_val, find_byte, index_of_byte, is_octet,
    lemma_index_of_byte_is, lemma_index_of_byte_props, parse_octet, skip_byte, skip_byte_spec,
    str_ascii_bytes, to_upper_vec, upper_seq,
};
use vstd::slice::slice_to_vec;

verus! {

/// The negotiated representation for transfers. Only stored; transfers do
/// not currently differ by it.
#[derive(Clone, Copy, Debug, PartialEq, Eq, Structural)]
pub enum TransferType {
    Ascii,
    Image,
    Unknown,
}

/// One parsed control-channel command. Each variant carries at most one
/// argument: a text argument (name, password or virtual path), a port
/// number, or a transfer-type tag.
#[derive(Clone, Debug, PartialEq, Eq)]
pub enum Command {
    Cwd(String),
    List(Option<String>),
    Mkd(String),
    NoOp,
    Pass(String),
    Pasv,
    Port(u16),
    Pwd,
    Quit,
    Retr(String),
    Rmd(String),
    Stor(String),
    Syst,
    Type(TransferType),
    CdUp,
    Unknown(String),
    User(String),
}

/// The mathematical shape of a command: each text argument as its character
/// sequence.
pub enum CmdModel {
    Cwd(Seq<char>),
    List(Option<Seq<char>>),
    Mkd(Seq<char>),
    NoOp,
    Pass(Seq<char>),
    Pasv,
    Port(u16),
    Pwd,
    Quit,
    Retr(Seq<char>),
    Rmd(Seq<char>),
    Stor(Seq<char>),
    Syst,
    Type(TransferType),
    CdUp,
    Unknown(Seq<char>),
    User(Seq<char>),
}

impl View for Command {
    type V = CmdModel;

    open spec fn view(&self) -> CmdModel {
        match self {
            Command::Cwd(p) => CmdModel::Cwd(p@),
            Command::List(o) => CmdModel::List(
                match o {
                    Option::Some(p) => Option::Some(p@),
                    Option::None => Option::None,
                },
            ),
            Command::Mkd(p) => CmdModel::Mkd(p@),
            Command::NoOp => CmdModel::NoOp,
            Command::Pass(p) => CmdModel::Pass(p@),
            Command::Pasv => CmdModel::Pasv,
            Command::Port(p) => CmdModel::Port(*p),
            Command::Pwd => CmdModel::Pwd,
            Command::Quit => CmdModel::Quit,
            Command::Retr(p) => CmdModel::Retr(p@),
            Command::Rmd(p) => CmdModel::Rmd(p@),
            Command::Stor(p) => CmdModel::Stor(p@),
            Command::Syst => CmdModel::Syst,
            Command::Type(t) => CmdModel::Type(*t),
            Command::CdUp => CmdModel::CdUp,
            Command::Unknown(s) => CmdModel::Unknown(s@),
            Command::User(s) => CmdModel::User(s@),
        }
    }
}

/// What one line of bytes parses to: a command, or one of the grammar's
/// rejections.
pub enum LineParse {
    Cmd(CmdModel),
    /// A verb that needs an argument got none.
    MissingArg,
    /// A text argument is not valid UTF-8.
    BadEncoding,
    /// A `PORT` argument is not six comma-separated octets.
    BadPort,
    /// A `TYPE` argument names no known mode.
    BadType,
}

/// The end of the verb: the position of the first space.
pub open spec fn verb_end(line: Seq<u8>) -> int {
    index_of_byte(line, 32, 0)
}

/// The verb: everything before the first space.
pub open spec fn verb_of(line: Seq<u8>) -> Seq<u8> {
    line.subrange(0, verb_end(line))
}

/// The argument: everything after the first run of spaces, or nothing when
/// only spaces (or nothing) follow the verb.
pub open spec fn arg_of(line: Seq<u8>) -> Option<Seq<u8>> {
    let a = skip_byte_spec(line, 32, verb_end(line));
    if a >= line.len() {
        Option::None
    } else {
        Option::Some(line.subrange(a, line.len() as int))
    }
}

/// A verb's match in the table is case-insensitive.
pub open spec fn verb_is(line: Seq<u8>, w: Seq<char>) -> bool {
    upper_seq(verb_of(line)) == ascii_bytes(w)
}

/// Parse of a text argument: required, and required to be UTF-8.
pub open spec fn text_arg_parse(arg: Option<Seq<u8>>, make: spec_fn(Seq<char>) -> CmdModel) -> LineParse {
    match arg {
        Option::None => LineParse::MissingArg,
        Option::Some(bytes) => if valid_utf8(bytes) {
            LineParse::Cmd(make(decode_utf8(bytes)))
        } else {
            LineParse::BadEncoding
        },
    }
}

/// The comma-separated chunks of a byte string.
pub open spec fn split_commas(s: Seq<u8>) -> Seq<Seq<u8>>
    decreases s.len(),
    via split_commas_decreases
{
    let c = index_of_byte(s, 44, 0);
    if c >= s.len() {
        seq![s]
    } else {
        seq![s.subrange(0, c)] + split_commas(s.subrange(c + 1, s.len() as int))
    }
}

#[via_fn]
proof fn split_commas_decreases(s: Seq<u8>) {
    crate::text::lemma_index_of_byte_props(s, 44, 0);
}

pub open spec fn all_octets(cs: Seq<Seq<u8>>) -> bool {
    forall|k: int| 0 <= k < cs.len() ==> is_octet(#[trigger] cs[k])
}

/// The port encoded by a `PORT` argument: six comma-separated decimal
/// octets, of which the last two are the high and low byte of the port.
pub open spec fn port_of_arg(arg: Seq<u8>) -> Option<u16> {
    let cs = split_commas(arg);
    if cs.len() == 6 && all_octets(cs) {
        Option::Some((dec_val(cs[4]) * 256 + dec_val(cs[5])) as u16)
    } else {
        Option::None
    }
}

/// Parse of a `PORT` argument.
pub open spec fn port_arg_parse(arg: Option<Seq<u8>>) -> LineParse {
    match arg {
        Option::None => LineParse::MissingArg,
        Option::Some(bytes) => match port_of_arg(bytes) {
            Option::Some(p) => LineParse::Cmd(CmdModel::Port(p)),
            Option::None => LineParse::BadPort,
        },
    }
}

/// Parse of a `TYPE` argument: its first byte must name a mode.
pub open spec fn type_arg_parse(arg: Option<Seq<u8>>) -> LineParse {
    match arg {
        Option::None => LineParse::MissingArg,
        Option::Some(bytes) => if bytes[0] == 65 {
            LineParse::Cmd(CmdModel::Type(TransferType::Ascii))
        } else if bytes[0] == 73 {
            LineParse::Cmd(CmdModel::Type(TransferType::Image))
        } else {
            LineParse::BadType
        },
    }
}

/// The text a verb outside the table is echoed back as: the verb itself if
/// it is UTF-8, otherwise nothing.
pub open spec fn unknown_text(line: Seq<u8>) -> Seq<char> {
    if valid_utf8(verb_of(line)) {
        decode_utf8(verb_of(line))
    } else {
        Seq::<char>::empty()
    }
}

/// The whole grammar: what one line of bytes (without its CRLF) parses to.
/// Total: every byte sequence falls into exactly one case.
pub open spec fn parse_line(line: Seq<u8>) -> LineParse {
    let arg = arg_of(line);
    if verb_is(line, "USER"@) {
        text_arg_parse(arg, |s: Seq<char>| CmdModel::User(s))
    } else if verb_is(line, "PASS"@) {
        text_arg_parse(arg, |s: Seq<char>| CmdModel::Pass(s))
    } else if verb_is(line, "PWD"@) {
        LineParse::Cmd(CmdModel::Pwd)
    } else if verb_is(line, "CWD"@) {
        text_arg_parse(arg, |s: Seq<char>| CmdModel::Cwd(s))
    } else if verb_is(line, "CDUP"@) {
        LineParse::Cmd(CmdModel::CdUp)
    } else if verb_is(line, "TYPE"@) {
        type_arg_parse(arg)
    } else if verb_is(line, "PASV"@) {
        LineParse::Cmd(CmdModel::Pasv)
    } else if verb_is(line, "PORT"@) {
        port_arg_parse(arg)
    } else if verb_is(line, "MKD"@) {
        text_arg_parse(arg, |s: Seq<char>| CmdModel::Mkd(s))
    } else if verb_is(line, "RMD"@) {
        text_arg_parse(arg, |s: Seq<char>| CmdModel::Rmd(s))
    } else if verb_is(line, "LIST"@) {
        match arg {
            Option::None => LineParse::Cmd(CmdModel::List(Option::None)),
            Option::Some(bytes) => if valid_utf8(bytes) {
                LineParse::Cmd(CmdModel::List(Option::Some(decode_utf8(bytes))))
            } else {
                LineParse::BadEncoding
            },
        }
    } else if verb_is(line, "RETR"@) {
        text_arg_parse(arg, |s: Seq<char>| CmdModel::Retr(s))
    } else if verb_is(line, "STOR"@) {
        text_arg_parse(arg, |s: Seq<char>| CmdModel::Stor(s))
    } else if verb_is(line, "SYST"@) {
        LineParse::Cmd(CmdModel::Syst)
    } else if verb_is(line, "NOOP"@) {
        LineParse::Cmd(CmdModel::NoOp)
    } else if verb_is(line, "QUIT"@) {
        LineParse::Cmd(CmdModel::Quit)
    } else {
        LineParse::Cmd(CmdModel::Unknown(unknown_text(line)))
    }
}

/// Relies on `String::from_utf8`: it succeeds exactly on valid UTF-8 input
/// and decodes it; its error value reports the failure.
#[verifier::external_body]
fn string_from_utf8(bytes: Vec<u8>) -> (r: Result<String, Error>)
    ensures
        r is Ok <==> valid_utf8(bytes@),
        r matches Ok(s) ==> s@ == decode_utf8(bytes@),
        r matches Err(e) ==> e is FromUtf8,
{
    String::from_utf8(bytes).map_err(Error::FromUtf8)
}

/// Takes the text argument that starts at `a`: required, and required to be
/// UTF-8.
fn text_arg(line: &[u8], a: usize) -> (r: Result<String, Error>)
    requires
        a <= line@.len(),
    ensures
        a >= line@.len() ==> (r matches Err(e) && e is Msg),
        a < line@.len() ==> {
            let bytes = line@.subrange(a as int, line@.len() as int);
            &&& (r is Ok <==> valid_utf8(bytes))
            &&& (r matches Ok(s) ==> s@ == decode_utf8(bytes))
            &&& (r matches Err(e) ==> e is FromUtf8)
        },
{
    let n = line.len();
    if a >= n {
        return Err(Error::Msg("no command parameter".to_owned()));
    }
    let bytes = slice_to_vec(&line[a..n]);
    string_from_utf8(bytes)
}

/// Decodes a `PORT` argument (the suffix of `line` starting at `a`).
fn port_arg(line: &[u8], a: usize) -> (r: Result<u16, Error>)
    requires
        a < line@.len(),
    ensures
        ({
            let arg = line@.subrange(a as int, line@.len() as int);
            match port_of_arg(arg) {
                Option::Some(p) => r matches Ok(q) && q == p,
                Option::None => r matches Err(e) && e is Msg,
            }
        }),
{
    let s: &[u8] = &line[a..line.len()];
    let ghost arg = line@.subrange(a as int, line@.len() as int);
    proof {
        assert(s@ =~= arg);
    }
    let m = s.len();
    let mut vals: Vec<u8> = Vec::new();
    let ghost mut chunks: Seq<Seq<u8>> = Seq::empty();
    let mut pos: usize = 0;
    proof {
        assert(arg.subrange(0, m as int) =~= arg);
        assert(chunks + split_commas(arg) =~= split_commas(arg));
    }
    loop
        invariant_except_break
            split_commas(arg) == chunks + split_commas(arg.subrange(pos as int, m as int)),
        invariant
            arg == line@.subrange(a as int, line@.len() as int),
            m == arg.len(),
            s@ == arg,
            0 <= pos <= m,
            vals@.len() == chunks.len(),
            forall|k: int|
                0 <= k < chunks.len() ==> is_octet(#[trigger] chunks[k]) && vals@[k] as nat
                    == dec_val(chunks[k]),
        ensures
            split_commas(arg) == chunks,
        decreases m - pos,
    {
        let c = find_byte(s, 44, pos);
        proof {
            lemma_index_of_byte_props(arg, 44, pos as int);
        }
        let ghost rest = arg.subrange(pos as int, m as int);
        proof {
            // The comma found in the whole argument is the first comma of the
            // unprocessed suffix.
            assert(forall|j: int|
                0 <= j < c - pos ==> #[trigger] rest[j] == arg[pos + j] && rest[j] != 44);
            lemma_index_of_byte_is(rest, 44, 0, c - pos as int);
            assert(index_of_byte(rest, 44, 0) == c - pos);
        }
        let chunk: &[u8] = &s[pos..c];
        proof {
            assert(chunk@ =~= rest.subrange(0, c - pos));
        }
        let v = match parse_octet(chunk) {
            Option::Some(v) => v,
            Option::None => {
                proof {
                    // The failing chunk is one of the comma chunks of the
                    // argument, so the argument decodes to no port.
                    if c < m {
                        assert(split_commas(rest) == seq![rest.subrange(0, c - pos)]
                            + split_commas(rest.subrange(c - pos + 1, rest.len() as int)));
                    } else {
                        assert(chunk@ =~= rest);
                        assert(split_commas(rest) == seq![rest]);
                    }
                    assert(split_commas(arg).len() > chunks.len());
                    assert(split_commas(arg)[chunks.len() as int] == chunk@);
                    assert(!is_octet(chunk@));
                    assert(!all_octets(split_commas(arg)));
                    assert(port_of_arg(arg) is None);
                }
                return Err(Error::Msg("invalid address/port".to_owned()));
            },
        };
        vals.push(v);
        proof {
            chunks = chunks + seq![chunk@];
        }
        if c < m {
            proof {
                assert(split_commas(rest) == seq![rest.subrange(0, c - pos)]
                    + split_commas(rest.subrange(c - pos + 1, rest.len() as int)));
                assert(rest.subrange(c - pos + 1, rest.len() as int) =~= arg.subrange(
                    c + 1,
                    m as int,
                ));
                assert(split_commas(arg) == chunks + split_commas(
                    arg.subrange(c + 1 as int, m as int),
                ));
            }
            pos = c + 1;
        } else {
            proof {
                assert(chunk@ =~= rest);
                assert(split_commas(rest) == seq![rest]);
                assert(split_commas(arg) =~= chunks);
            }
            break;
        }
    }
    if vals.len() == 6 {
        let p: u16 = (vals[4] as u16) * 256 + (vals[5] as u16);
        proof {
            assert(chunks[4] == split_commas(arg)[4]);
            assert(chunks[5] == split_commas(arg)[5]);
        }
        Ok(p)
    } else {
        Err(Error::Msg("invalid address/port".to_owned()))
    }
}

impl Command {
    /// Parses one line of bytes (its CRLF already stripped). Total: every
    /// input, including empty and non-UTF-8 input, parses to the command or
    /// to the rejection that [`parse_line`] names, and to nothing worse.
    pub fn new(input: Vec<u8>) -> (r: Result<Command, Error>)
        ensures
            r is Ok <==> parse_line(input@) is Cmd,
            r matches Ok(c) ==> parse_line(input@) == LineParse::Cmd(c@),
            parse_line(input@) is BadEncoding ==> (r matches Err(e) && e is FromUtf8),
            parse_line(input@) is MissingArg ==> (r matches Err(e) && e is Msg),
            parse_line(input@) is BadPort ==> (r matches Err(e) && e is Msg),
            parse_line(input@) is BadType ==> (r matches Err(e) && e is Msg),
    {
        proof {
            reveal_strlit("USER");
            reveal_strlit("PASS");
            reveal_strlit("PWD");
            reveal_strlit("CWD");
            reveal_strlit("CDUP");
            reveal_strlit("TYPE");
            reveal_strlit("PASV");
            reveal_strlit("PORT");
            reveal_strlit("MKD");
            reveal_strlit("RMD");
            reveal_strlit("LIST");
            reveal_strlit("RETR");
            reveal_strlit("STOR");
            reveal_strlit("SYST");
            reveal_strlit("NOOP");
            reveal_strlit("QUIT");
        }
        let line: &[u8] = input.as_slice();
        let n = line.len();
        let fs = find_byte(line, 32, 0);
        proof {
            lemma_index_of_byte_props(line@, 32, 0);
        }
        let verb_raw: &[u8] = &line[0..fs];
        proof {
            assert(verb_raw@ =~= verb_of(line@));
        }
        let verb = to_upper_vec(verb_raw);
        let a = skip_byte(line, 32, fs);
        if bytes_eq(verb.as_slice(), str_ascii_bytes("USER")) {
            match text_arg(line, a) {
                Ok(s) => Ok(Command::User(s)),
                Err(e) => Err(e),
            }
        } else if bytes_eq(verb.as_slice(), str_ascii_bytes("PASS")) {
            match text_arg(line, a) {
                Ok(s) => Ok(Command::Pass(s)),
                Err(e) => Err(e),
            }
        } else if bytes_eq(verb.as_slice(), str_ascii_bytes("PWD")) {
            Ok(Command::Pwd)
        } else if bytes_eq(verb.as_slice(), str_ascii_bytes("CWD")) {
            match text_arg(line, a) {
                Ok(s) => Ok(Command::Cwd(s)),
                Err(e) => Err(e),
            }
        } else if bytes_eq(verb.as_slice(), str_ascii_bytes("CDUP")) {
            Ok(Command::CdUp)
        } else if bytes_eq(verb.as_slice(), str_ascii_bytes("TYPE")) {
            if a >= n {
                Err(Error::Msg("no command parameter".to_owned()))
            } else if line[a] == 65 {
                Ok(Command::Type(TransferType::Ascii))
            } else if line[a] == 73 {
                Ok(Command::Type(TransferType::Image))
            } else {
                Err(Error::Msg("command not implemented for that parameter".to_owned()))
            }
        } else if bytes_eq(verb.as_slice(), str_ascii_bytes("PASV")) {
            Ok(Command::Pasv)
        } else if bytes_eq(verb.as_slice(), str_ascii_bytes("PORT")) {
            if a >= n {
                Err(Error::Msg("no command parameter".to_owned()))
            } else {
                match port_arg(line, a) {
                    Ok(p) => Ok(Command::Port(p)),
                    Err(e) => Err(e),
                }
            }
        } else if bytes_eq(verb.as_slice(), str_ascii_bytes("MKD")) {
            match text_arg(line, a) {
                Ok(s) => Ok(Command::Mkd(s)),
                Err(e) => Err(e),
            }
        } else if bytes_eq(verb.as_slice(), str_ascii_bytes("RMD")) {
            match text_arg(line, a) {
                Ok(s) => Ok(Command::Rmd(s)),
                Err(e) => Err(e),
            }
        } else if bytes_eq(verb.as_slice(), str_ascii_bytes("LIST")) {
            if a >= n {
                Ok(Command::List(None))
            } else {
                match text_arg(line, a) {
                    Ok(s) => Ok(Command::List(Some(s))),
                    Err(e) => Err(e),
                }
            }
        } else if bytes_eq(verb.as_slice(), str_ascii_bytes("RETR")) {
            match text_arg(line, a) {
                Ok(s) => Ok(Command::Retr(s)),
                Err(e) => Err(e),
            }
        } else if bytes_eq(verb.as_slice(), str_ascii_bytes("STOR")) {
            match text_arg(line, a) {
                Ok(s) => Ok(Command::Stor(s)),
                Err(e) => Err(e),
            }
        } else if bytes_eq(verb.as_slice(), str_ascii_bytes("SYST")) {
            Ok(Command::Syst)
        } else if bytes_eq(verb.as_slice(), str_ascii_bytes("NOOP")) {
            Ok(Command::NoOp)
        } else if bytes_eq(verb.as_slice(), str_ascii_bytes("QUIT")) {
            Ok(Command::Quit)
        } else {
            let raw = slice_to_vec(verb_raw);
            match string_from_utf8(raw) {
                Ok(s) => Ok(Command::Unknown(s)),
                Err(_) => Ok(Command::Unknown(String::new())),
            }
        }
    }
}

} // verus!
