//! The line-framing codec over the incremental byte buffers of the `bytes`
//! crate. The control-channel codec decodes one CRLF-terminated line at a
//! time into a command and encodes replies as `<code> <message>` lines; the
//! data-channel codec treats the whole buffer as one opaque unit.

use vstd::prelude::*;
use vstd::slice::slice_to_vec;
use vstd::utf8::{
    decode_utf8, encode_utf8, encode_utf8_decode_utf8, encode_utf8_valid_utf8, is_ascii_chars,
    is_ascii_chars_encode_utf8, valid_utf8,
};

use crate::cmd::{parse_line, Command, LineParse};
use crate::error::Error;
use crate::ftp::{code_num, lemma_code_num_three_digits, spec_code_num, Answer};
use crate::text::{
    all_dec_bytes, ascii_bytes, dec_chars, dec_val, index_of_byte, is_dec_byte,
    lemma_ascii_char_byte, lemma_byte_char_byte, lemma_dec_chars_ascii, lemma_dec_chars_val,
    lemma_index_of_byte_is, u64_dec_string,
};

verus! {

/// Declares `bytes::BytesMut`, the growable byte buffer that framed sockets
/// fill and drain. [`buf_contents`] names what it holds.
#[verifier::external_type_specification]
#[verifier::external_body]
pub struct ExBytesMut(bytes::BytesMut);

/// The bytes a `bytes::BytesMut` buffer holds, in order.
pub uninterp spec fn buf_contents(b: bytes::BytesMut) -> Seq<u8>;

/// Relies on `BytesMut::new`: the new buffer is empty.
#[verifier::external_body]
pub(crate) fn buf_new() -> (b: bytes::BytesMut)
    ensures
        buf_contents(b) == Seq::<u8>::empty(),
{
    bytes::BytesMut::new()
}

/// Relies on `BytesMut::len`: the number of bytes held.
#[verifier::external_body]
pub(crate) fn buf_len(b: &bytes::BytesMut) -> (n: usize)
    ensures
        n == buf_contents(*b).len(),
{
    b.len()
}

/// Relies on `<BytesMut as AsRef<[u8]>>::as_ref`: a view of the held bytes.
#[verifier::external_body]
pub(crate) fn buf_as_slice(b: &bytes::BytesMut) -> (s: &[u8])
    ensures
        s@ == buf_contents(*b),
{
    b.as_ref()
}

/// Relies on `BytesMut::split_to`: the first `at` bytes leave as their own
/// buffer and the rest stay. It panics above the length, so that is kept out.
#[verifier::external_body]
pub(crate) fn buf_split_to(b: &mut bytes::BytesMut, at: usize) -> (r: bytes::BytesMut)
    requires
        at <= buf_contents(*old(b)).len(),
    ensures
        buf_contents(r) == buf_contents(*old(b)).subrange(0, at as int),
        buf_contents(*final(b)) == buf_contents(*old(b)).subrange(
            at as int,
            buf_contents(*old(b)).len() as int,
        ),
{
    b.split_to(at)
}

/// Relies on `BytesMut::clear`: removes all held bytes.
#[verifier::external_body]
pub(crate) fn buf_clear(b: &mut bytes::BytesMut)
    ensures
        buf_contents(*final(b)) == Seq::<u8>::empty(),
{
    b.clear()
}

/// Relies on `BytesMut::extend_from_slice`: appends the given bytes.
#[verifier::external_body]
pub(crate) fn buf_extend(b: &mut bytes::BytesMut, data: &[u8])
    ensures
        buf_contents(*final(b)) == buf_contents(*old(b)) + data@,
{
    b.extend_from_slice(data)
}

/// The first position at or after `i` where a CRLF pair starts, or the
/// length of `s` if there is none.
pub open spec fn crlf_index(s: Seq<u8>, i: int) -> int
    decreases s.len() - i,
{
    if i < 0 || i + 1 >= s.len() {
        s.len() as int
    } else if s[i] == 13 && s[i + 1] == 10 {
        i
    } else {
        crlf_index(s, i + 1)
    }
}

/// A position before which no CRLF pair starts, and which starts one or is
/// the end, is what `crlf_index` names.
pub proof fn lemma_crlf_index_is(s: Seq<u8>, from: int, r: int)
    requires
        0 <= from <= r <= s.len(),
        forall|j: int| from <= j < r && j + 1 < s.len() ==> !((#[trigger] s[j]) == 13 && s[j + 1] == 10),
        r < s.len() ==> r + 1 < s.len() && s[r] == 13 && s[r + 1] == 10,
    ensures
        crlf_index(s, from) == r,
    decreases r - from,
{
    if from < r {
        lemma_crlf_index_is(s, from + 1, r);
    }
}

pub proof fn lemma_crlf_index_props(s: Seq<u8>, from: int)
    requires
        0 <= from <= s.len(),
    ensures
        from <= crlf_index(s, from) <= s.len(),
        forall|j: int|
            from <= j < crlf_index(s, from) && j + 1 < s.len() ==> !((#[trigger] s[j]) == 13
                && s[j + 1] == 10),
        crlf_index(s, from) < s.len() ==> crlf_index(s, from) + 1 < s.len() && s[crlf_index(
            s,
            from,
        )] == 13 && s[crlf_index(s, from) + 1] == 10,
    decreases s.len() - from,
{
    if from + 1 < s.len() && !(s[from] == 13 && s[from + 1] == 10) {
        lemma_crlf_index_props(s, from + 1);
    }
}

/// Finds the first CRLF pair, returning the length when there is none.
fn find_crlf(s: &[u8]) -> (r: usize)
    ensures
        r == crlf_index(s@, 0),
        r <= s@.len(),
{
    let n = s.len();
    if n < 2 {
        proof {
            lemma_crlf_index_is(s@, 0, n as int);
        }
        return n;
    }
    let mut i: usize = 0;
    while i < n - 1
        invariant
            2 <= n,
            0 <= i <= n,
            n == s@.len(),
            forall|j: int| 0 <= j < i ==> !((#[trigger] s@[j]) == 13 && s@[j + 1] == 10),
        decreases n - i,
    {
        if s[i] == 13 && s[i + 1] == 10 {
            proof {
                lemma_crlf_index_is(s@, 0, i as int);
            }
            return i;
        }
        i += 1;
    }
    proof {
        lemma_crlf_index_is(s@, 0, n as int);
    }
    n
}

/// The characters of one encoded reply: the code in decimal, then — when
/// the message is not empty — one space and the message, then CRLF.
pub open spec fn reply_chars(a: Answer) -> Seq<char> {
    dec_chars(spec_code_num(a.code) as nat) + (if a.message@.len() == 0 {
        Seq::<char>::empty()
    } else {
        seq![' '] + a.message@
    }) + seq!['\r', '\n']
}

/// The bytes one reply puts on the wire.
pub open spec fn reply_bytes(a: Answer) -> Seq<u8> {
    encode_utf8(reply_chars(a))
}

/// What a reply line on the wire reads back as: the bytes up to the first
/// CRLF, split at the first space into a decimal code and the message text.
pub open spec fn reply_decode(bytes: Seq<u8>) -> Option<(u32, Seq<char>)> {
    let ci = crlf_index(bytes, 0);
    if ci == bytes.len() {
        Option::None
    } else {
        let lineb = bytes.subrange(0, ci);
        let sp = index_of_byte(lineb, 32, 0);
        let codeb = lineb.subrange(0, sp);
        let msgb = if sp == lineb.len() {
            Seq::<u8>::empty()
        } else {
            lineb.subrange(sp + 1, lineb.len() as int)
        };
        if codeb.len() >= 1 && all_dec_bytes(codeb) && dec_val(codeb) <= u32::MAX && valid_utf8(
            msgb,
        ) {
            Option::Some((dec_val(codeb) as u32, decode_utf8(msgb)))
        } else {
            Option::None
        }
    }
}

/// A message that can ride one reply line: ASCII text without CR or LF.
pub open spec fn plain_message(msg: Seq<char>) -> bool {
    &&& is_ascii_chars(msg)
    &&& forall|i: int| 0 <= i < msg.len() ==> #[trigger] msg[i] != '\r' && msg[i] != '\n'
}

/// Law: encoding a reply and reading the wire bytes back yields the original
/// code and message, for every reply code and every plain message, empty or
/// not.
pub proof fn lemma_reply_round_trip(a: Answer)
    requires
        plain_message(a.message@),
    ensures
        reply_decode(reply_bytes(a)) == Option::Some((spec_code_num(a.code), a.message@)),
{
    let n = spec_code_num(a.code) as nat;
    let msg = a.message@;
    let d = dec_chars(n);
    let chars = reply_chars(a);
    let bytes = reply_bytes(a);
    lemma_dec_chars_ascii(n);
    lemma_dec_chars_val(n);
    lemma_code_num_three_digits(a.code);

    // Every character of the line is ASCII, so the wire bytes are the
    // characters' code points, one byte each.
    assert forall|i: int| 0 <= i < chars.len() implies '\0' <= #[trigger] chars[i] <= '\u{7f}' by {
        if i < d.len() {
            assert(chars[i] == d[i]);
        } else if i < chars.len() - 2 {
            if msg.len() > 0 {
                if i == d.len() {
                    assert(chars[i] == ' ');
                } else {
                    assert(chars[i] == msg[i - d.len() - 1]);
                }
            }
        } else if i == chars.len() - 2 {
            assert(chars[i] == '\r');
        } else {
            assert(chars[i] == '\n');
        }
    }
    assert(is_ascii_chars(chars));
    is_ascii_chars_encode_utf8(chars);
    assert(bytes.len() == chars.len());

    // Classify each byte of the line.
    assert forall|i: int| 0 <= i < d.len() implies is_dec_byte(#[trigger] bytes[i]) by {
        assert(chars[i] == d[i]);
        lemma_ascii_char_byte(d[i]);
    }
    assert forall|i: int| 0 <= i < bytes.len() - 2 implies bytes[i] != 13 && bytes[i] != 10 by {
        lemma_ascii_char_byte(chars[i]);
        if i < d.len() {
            assert(is_dec_byte(bytes[i]));
        } else if msg.len() > 0 && i == d.len() {
            assert(chars[i] == ' ');
        } else {
            assert(chars[i] == msg[i - d.len() - 1]);
            lemma_byte_char_byte(13);
            lemma_byte_char_byte(10);
        }
    }
    assert(chars[chars.len() - 2] == '\r' && chars[chars.len() - 1] == '\n');
    lemma_ascii_char_byte('\r');
    lemma_ascii_char_byte('\n');
    assert(bytes[bytes.len() - 2] == 13 && bytes[bytes.len() - 1] == 10);

    // The first CRLF is the terminator.
    lemma_crlf_index_is(bytes, 0, bytes.len() - 2);
    let lineb = bytes.subrange(0, bytes.len() - 2);

    if msg.len() == 0 {
        // The line is the code's digits alone.
        assert(lineb =~= ascii_bytes(d));
        lemma_index_of_byte_is(lineb, 32, 0, lineb.len() as int);
        assert(lineb.subrange(0, lineb.len() as int) =~= lineb);
        assert(valid_utf8(Seq::<u8>::empty()));
        assert(decode_utf8(Seq::<u8>::empty()) =~= Seq::<char>::empty());
        assert(reply_decode(bytes) == Option::Some((spec_code_num(a.code), a.message@)));
    } else {
        // The line is the digits, one space, then the message's bytes.
        assert(chars[d.len() as int] == ' ');
        lemma_ascii_char_byte(' ');
        assert(bytes[d.len() as int] == 32);
        lemma_index_of_byte_is(lineb, 32, 0, d.len() as int);
        assert(lineb.subrange(0, d.len() as int) =~= ascii_bytes(d));
        let msgb = lineb.subrange(d.len() as int + 1, lineb.len() as int);
        is_ascii_chars_encode_utf8(msg);
        assert forall|i: int| 0 <= i < msg.len() implies #[trigger] msgb[i] == encode_utf8(
            msg,
        )[i] by {
            assert(chars[d.len() + 1 + i] == msg[i]);
        }
        assert(msgb =~= encode_utf8(msg));
        encode_utf8_valid_utf8(msg);
        encode_utf8_decode_utf8(msg);
        assert(reply_decode(bytes) == Option::Some((spec_code_num(a.code), a.message@)));
    }
}

/// The control-channel codec: framing between raw bytes and commands in,
/// replies out.
pub struct FtpCodec;

impl FtpCodec {
    /// One decode step. Without a complete CRLF-terminated line the buffer
    /// is untouched and there is no command yet; otherwise the line and its
    /// CRLF leave the buffer and the line parses per [`parse_line`].
    pub fn decode(&mut self, buf: &mut bytes::BytesMut) -> (r: Result<Option<Command>, Error>)
        ensures
            ({
                let old_c = buf_contents(*old(buf));
                let ci = crlf_index(old_c, 0);
                if ci == old_c.len() {
                    &&& r matches Ok(o) && o is None
                    &&& buf_contents(*final(buf)) == old_c
                } else {
                    &&& buf_contents(*final(buf)) == old_c.subrange(ci + 2, old_c.len() as int)
                    &&& (match parse_line(old_c.subrange(0, ci)) {
                        LineParse::Cmd(m) => r matches Ok(o) && o matches Some(c) && c@ == m,
                        LineParse::BadEncoding => r matches Err(e) && e is FromUtf8,
                        _ => r matches Err(e) && e is Msg,
                    })
                }
            }),
    {
        let ghost old_c = buf_contents(*buf);
        let idx: usize;
        let n: usize;
        {
            let s = buf_as_slice(buf);
            n = s.len();
            idx = find_crlf(s);
        }
        proof {
            lemma_crlf_index_props(old_c, 0);
        }
        if idx == n {
            return Ok(None);
        }
        let line_buf = buf_split_to(buf, idx);
        let rest = buf_split_to(buf, 2);
        proof {
            assert(buf_contents(*buf) =~= old_c.subrange(idx + 2, old_c.len() as int));
        }
        let line = slice_to_vec(buf_as_slice(&line_buf));
        match Command::new(line) {
            Ok(c) => Ok(Some(c)),
            Err(e) => Err(e),
        }
    }

    /// One encode step: appends the reply's wire rendering to the buffer.
    /// Encoding never fails; the `Result` mirrors the framed-stream shape.
    pub fn encode(&mut self, answer: Answer, buf: &mut bytes::BytesMut) -> (r: Result<(), Error>)
        ensures
            r is Ok,
            buf_contents(*final(buf)) == buf_contents(*old(buf)) + reply_bytes(answer),
    {
        let digits = u64_dec_string(code_num(answer.code) as u64);
        let line = if answer.message.as_str().is_empty() {
            digits
        } else {
            proof {
                reveal_strlit(" ");
            }
            digits.concat(" ").concat(answer.message.as_str())
        };
        proof {
            reveal_strlit("\r\n");
        }
        let line = line.concat("\r\n");
        proof {
            assert(line@ =~= reply_chars(answer));
        }
        buf_extend(buf, line.as_str().as_bytes());
        Ok(())
    }
}

/// The data-channel codec: no framing at all. A decode step drains whatever
/// the buffer holds as one unit; an encode step appends the given bytes.
pub struct BytesCodec;

impl BytesCodec {
    pub fn decode(&mut self, buf: &mut bytes::BytesMut) -> (r: Result<Option<Vec<u8>>, Error>)
        ensures
            buf_contents(*old(buf)).len() == 0 ==> (r matches Ok(o) && o is None)
                && buf_contents(*final(buf)) == buf_contents(*old(buf)),
            buf_contents(*old(buf)).len() > 0 ==> (r matches Ok(o) && o matches Some(v) && v@
                == buf_contents(*old(buf))) && buf_contents(*final(buf)) == Seq::<u8>::empty(),
    {
        if buf_len(buf) == 0 {
            return Ok(None);
        }
        let data = slice_to_vec(buf_as_slice(buf));
        buf_clear(buf);
        Ok(Some(data))
    }

    pub fn encode(&mut self, data: Vec<u8>, buf: &mut bytes::BytesMut) -> (r: Result<(), Error>)
        ensures
            r is Ok,
            buf_contents(*final(buf)) == buf_contents(*old(buf)) + data@,
    {
        buf_extend(buf, data.as_slice());
        Ok(())
    }
}

} // verus!
