//! Small verified text helpers shared by the parser, the codec and the
//! session machine: ASCII views of string literals, byte-sequence equality,
//! decimal rendering of integers, decimal parsing of octets, and ASCII
//! uppercasing.

use vstd::prelude::*;
use vstd::string::StringSliceAdditionalSpecFns;
use vstd::string::is_ascii_spec_bytes;
use vstd::utf8::{encode_utf8, is_ascii_chars};

verus! {

/// The bytes of an ASCII character sequence, one byte per character.
pub open spec fn ascii_bytes(s: Seq<char>) -> Seq<u8> {
    s.map_values(|c: char| c as u8)
}

/// The bytes of an ASCII string slice. Callers use this on string literals,
/// after `reveal_strlit`, to compare wire bytes against a known word.
pub fn str_ascii_bytes<'a>(w: &'a str) -> (r: &'a [u8])
    requires
        is_ascii_chars(w@),
    ensures
        r@ == ascii_bytes(w@),
{
    let r = w.as_bytes();
    proof {
        is_ascii_spec_bytes(w);
        assert(r@ =~= ascii_bytes(w@));
    }
    r
}

/// Byte-sequence equality, decided element by element.
pub fn bytes_eq(a: &[u8], b: &[u8]) -> (r: bool)
    ensures
        r == (a@ == b@),
{
    if a.len() != b.len() {
        proof {
            assert(a@.len() != b@.len());
        }
        return false;
    }
    let n = a.len();
    let mut i: usize = 0;
    while i < n
        invariant
            n == a@.len() == b@.len(),
            0 <= i <= n,
            forall|j: int| 0 <= j < i ==> a@[j] == b@[j],
        decreases n - i,
    {
        if a[i] != b[i] {
            return false;
        }
        i += 1;
    }
    proof {
        assert(a@ =~= b@);
    }
    true
}

/// The character for one decimal digit.
pub open spec fn digit_char(d: u8) -> char
    recommends
        d < 10,
{
    ((48 + d) as u8) as char
}

/// The decimal rendering of a number, most significant digit first, with no
/// leading zeros (a single `'0'` for zero).
pub open spec fn dec_chars(n: nat) -> Seq<char>
    decreases n,
{
    if n < 10 {
        seq![digit_char(n as u8)]
    } else {
        dec_chars(n / 10) + seq![digit_char((n % 10) as u8)]
    }
}

/// One decimal digit as a string slice.
pub fn digit_str(d: u8) -> (r: &'static str)
    requires
        d < 10,
    ensures
        r@ == seq![digit_char(d)],
{
    proof {
        reveal_strlit("0");
        reveal_strlit("1");
        reveal_strlit("2");
        reveal_strlit("3");
        reveal_strlit("4");
        reveal_strlit("5");
        reveal_strlit("6");
        reveal_strlit("7");
        reveal_strlit("8");
        reveal_strlit("9");
    }
    let r = match d {
        0 => "0",
        1 => "1",
        2 => "2",
        3 => "3",
        4 => "4",
        5 => "5",
        6 => "6",
        7 => "7",
        8 => "8",
        _ => "9",
    };
    proof {
        assert(r@ =~= seq![digit_char(d)]);
    }
    r
}

/// Renders a number in decimal.
pub fn u64_dec_string(n: u64) -> (s: String)
    ensures
        s@ == dec_chars(n as nat),
    decreases n,
{
    if n < 10 {
        digit_str(n as u8).to_owned()
    } else {
        let front = u64_dec_string(n / 10);
        let s = front.concat(digit_str((n % 10) as u8));
        proof {
            assert(s@ =~= dec_chars(n as nat));
        }
        s
    }
}

/// Every character of a decimal rendering is an ASCII digit.
pub proof fn lemma_dec_chars_ascii(n: nat)
    ensures
        is_ascii_chars(dec_chars(n)),
        forall|i: int|
            0 <= i < dec_chars(n).len() ==> 48 <= #[trigger] (dec_chars(n)[i] as u32) <= 57,
    decreases n,
{
    if n >= 10 {
        lemma_dec_chars_ascii(n / 10);
    }
}

/// An ASCII character's byte is its code point.
pub proof fn lemma_ascii_char_byte(c: char)
    requires
        (c as u32) < 128,
    ensures
        (c as u8) as u32 == c as u32,
{
}

/// A code point below 128, made a character, casts back to the same byte.
pub proof fn lemma_byte_char_byte(b: u8)
    requires
        b < 128,
    ensures
        ((b as char) as u32) == b as u32,
        ((b as char) as u8) == b,
{
}

/// The bytes of a decimal rendering are digit bytes that read back as the
/// number rendered.
pub proof fn lemma_dec_chars_val(n: nat)
    ensures
        dec_chars(n).len() >= 1,
        ascii_bytes(dec_chars(n)).len() == dec_chars(n).len(),
        all_dec_bytes(ascii_bytes(dec_chars(n))),
        dec_val(ascii_bytes(dec_chars(n))) == n,
    decreases n,
{
    lemma_dec_chars_ascii(n);
    let d = dec_chars(n);
    let b = ascii_bytes(d);
    if n < 10 {
        lemma_byte_char_byte((48 + n) as u8);
        assert(b =~= seq![(48 + n) as u8]);
        assert(b.drop_last() =~= Seq::<u8>::empty());
        assert(dec_val(Seq::<u8>::empty()) == 0);
        assert(dec_val(b) == n);
    } else {
        lemma_dec_chars_val(n / 10);
        lemma_byte_char_byte((48 + n % 10) as u8);
        let front = ascii_bytes(dec_chars(n / 10));
        assert(b =~= front + seq![(48 + n % 10) as u8]);
        assert(b.drop_last() =~= front);
        assert(b.last() == (48 + n % 10) as u8);
        assert(dec_val(b) == dec_val(front) * 10 + n % 10);
        assert((n / 10) * 10 + n % 10 == n) by {
            vstd::arithmetic::div_mod::lemma_fundamental_div_mod(n as int, 10);
        }
    }
}

/// UTF-8 encoding distributes over concatenation.
pub proof fn lemma_encode_utf8_concat(a: Seq<char>, b: Seq<char>)
    ensures
        encode_utf8(a + b) == encode_utf8(a) + encode_utf8(b),
    decreases a.len(),
{
    if a.len() == 0 {
        assert(a + b =~= b);
        assert(encode_utf8(a) + encode_utf8(b) =~= encode_utf8(b));
    } else {
        lemma_encode_utf8_concat(a.drop_first(), b);
        assert((a + b).drop_first() =~= a.drop_first() + b);
        assert((a + b)[0] == a[0]);
        assert(vstd::utf8::encode_scalar(a[0] as u32) + (encode_utf8(a.drop_first())
            + encode_utf8(b)) =~= (vstd::utf8::encode_scalar(a[0] as u32) + encode_utf8(
            a.drop_first(),
        )) + encode_utf8(b));
    }
}

/// In valid UTF-8, any position holding an ASCII byte (or the end) is a
/// character boundary.
pub proof fn lemma_ascii_boundary(bytes: Seq<u8>, i: int)
    requires
        vstd::utf8::valid_utf8(bytes),
        0 <= i <= bytes.len(),
        i < bytes.len() ==> bytes[i] < 128,
    ensures
        vstd::utf8::is_char_boundary(bytes, i),
{
    if i < bytes.len() {
        vstd::utf8::is_char_boundary_iff_not_is_continuation_byte(bytes, i);
    } else {
        vstd::utf8::is_char_boundary_start_end_of_seq(bytes);
    }
}

/// An ASCII decimal digit byte.
pub open spec fn is_dec_byte(b: u8) -> bool {
    48 <= b <= 57
}

pub open spec fn all_dec_bytes(s: Seq<u8>) -> bool {
    forall|i: int| 0 <= i < s.len() ==> is_dec_byte(#[trigger] s[i])
}

/// The value of a string of decimal digit bytes.
pub open spec fn dec_val(s: Seq<u8>) -> nat
    recommends
        all_dec_bytes(s),
    decreases s.len(),
{
    if s.len() == 0 {
        0
    } else {
        (dec_val(s.drop_last()) * 10 + (s.last() - 48)) as nat
    }
}

/// A byte string that decodes to one octet: nonempty, all digits, value at
/// most 255 (leading zeros allowed).
pub open spec fn is_octet(s: Seq<u8>) -> bool {
    s.len() >= 1 && all_dec_bytes(s) && dec_val(s) <= 255
}

/// Longer digit prefixes never have smaller values.
proof fn lemma_dec_val_prefix(s: Seq<u8>, i: int)
    requires
        0 <= i <= s.len(),
        all_dec_bytes(s),
    ensures
        dec_val(s.subrange(0, i)) <= dec_val(s),
    decreases s.len() - i,
{
    if i == s.len() {
        assert(s.subrange(0, i) =~= s);
    } else {
        lemma_dec_val_prefix(s, i + 1);
        let t = s.subrange(0, i + 1);
        assert(t.drop_last() =~= s.subrange(0, i));
    }
}

/// Parses one decimal octet from a byte string; `None` exactly when the
/// string is not a digit string whose value fits in one byte.
pub fn parse_octet(s: &[u8]) -> (r: Option<u8>)
    ensures
        r is Some <==> is_octet(s@),
        r is Some ==> r->0 as nat == dec_val(s@),
{
    let n = s.len();
    if n == 0 {
        return None;
    }
    let mut acc: u16 = 0;
    let mut i: usize = 0;
    while i < n
        invariant
            0 <= i <= n,
            n == s@.len(),
            all_dec_bytes(s@.subrange(0, i as int)),
            acc as nat == dec_val(s@.subrange(0, i as int)),
            acc <= 255,
        decreases n - i,
    {
        let b = s[i];
        if b < 48 || b > 57 {
            return None;
        }
        let d = (b - 48) as u16;
        let next = acc * 10 + d;
        proof {
            assert(s@.subrange(0, i + 1).drop_last() =~= s@.subrange(0, i as int));
        }
        if next > 255 {
            proof {
                if all_dec_bytes(s@) {
                    lemma_dec_val_prefix(s@, i + 1);
                }
            }
            return None;
        }
        acc = next;
        i += 1;
    }
    proof {
        assert(s@.subrange(0, n as int) =~= s@);
    }
    Some(acc as u8)
}

/// The first position at or after `i` holding `b`, or the length of `s` if
/// there is none.
pub open spec fn index_of_byte(s: Seq<u8>, b: u8, i: int) -> int
    decreases s.len() - i,
{
    if i < 0 || i >= s.len() {
        s.len() as int
    } else if s[i] == b {
        i
    } else {
        index_of_byte(s, b, i + 1)
    }
}

/// The first position at or after `i` holding something other than `b`, or
/// the length of `s` if there is none.
pub open spec fn skip_byte_spec(s: Seq<u8>, b: u8, i: int) -> int
    decreases s.len() - i,
{
    if i < 0 || i >= s.len() {
        s.len() as int
    } else if s[i] != b {
        i
    } else {
        skip_byte_spec(s, b, i + 1)
    }
}

/// A position that sees `b` nowhere before it (from `from` on), and either
/// holds `b` or is the end, is what `index_of_byte` names.
pub proof fn lemma_index_of_byte_is(s: Seq<u8>, b: u8, from: int, r: int)
    requires
        0 <= from <= r <= s.len(),
        forall|j: int| from <= j < r ==> s[j] != b,
        r < s.len() ==> s[r] == b,
    ensures
        index_of_byte(s, b, from) == r,
    decreases r - from,
{
    if from < r {
        lemma_index_of_byte_is(s, b, from + 1, r);
    }
}

pub proof fn lemma_skip_byte_is(s: Seq<u8>, b: u8, from: int, r: int)
    requires
        0 <= from <= r <= s.len(),
        forall|j: int| from <= j < r ==> s[j] == b,
        r < s.len() ==> s[r] != b,
    ensures
        skip_byte_spec(s, b, from) == r,
    decreases r - from,
{
    if from < r {
        lemma_skip_byte_is(s, b, from + 1, r);
    }
}

/// `index_of_byte` stays between its starting point and the length, finds no
/// earlier occurrence, and lands on `b` unless it reaches the end.
pub proof fn lemma_index_of_byte_props(s: Seq<u8>, b: u8, from: int)
    requires
        0 <= from <= s.len(),
    ensures
        from <= index_of_byte(s, b, from) <= s.len(),
        forall|j: int| from <= j < index_of_byte(s, b, from) ==> s[j] != b,
        index_of_byte(s, b, from) < s.len() ==> s[index_of_byte(s, b, from)] == b,
    decreases s.len() - from,
{
    if from < s.len() && s[from] != b {
        lemma_index_of_byte_props(s, b, from + 1);
    }
}

pub fn find_byte(s: &[u8], b: u8, from: usize) -> (r: usize)
    requires
        from <= s@.len(),
    ensures
        r == index_of_byte(s@, b, from as int),
        from <= r <= s@.len(),
{
    let n = s.len();
    let mut i = from;
    while i < n
        invariant
            from <= i <= n,
            n == s@.len(),
            forall|j: int| from <= j < i ==> s@[j] != b,
        decreases n - i,
    {
        if s[i] == b {
            proof {
                lemma_index_of_byte_is(s@, b, from as int, i as int);
            }
            return i;
        }
        i += 1;
    }
    proof {
        lemma_index_of_byte_is(s@, b, from as int, n as int);
    }
    n
}

pub fn skip_byte(s: &[u8], b: u8, from: usize) -> (r: usize)
    requires
        from <= s@.len(),
    ensures
        r == skip_byte_spec(s@, b, from as int),
        from <= r <= s@.len(),
{
    let n = s.len();
    let mut i = from;
    while i < n
        invariant
            from <= i <= n,
            n == s@.len(),
            forall|j: int| from <= j < i ==> s@[j] == b,
        decreases n - i,
    {
        if s[i] != b {
            proof {
                lemma_skip_byte_is(s@, b, from as int, i as int);
            }
            return i;
        }
        i += 1;
    }
    proof {
        lemma_skip_byte_is(s@, b, from as int, n as int);
    }
    n
}

/// ASCII uppercasing of one byte; other bytes are unchanged.
pub open spec fn upper(b: u8) -> u8 {
    if 97 <= b <= 122 {
        (b - 32) as u8
    } else {
        b
    }
}

pub open spec fn upper_seq(s: Seq<u8>) -> Seq<u8> {
    s.map_values(|b: u8| upper(b))
}

/// Uppercases a byte string, as the verb table is matched case-insensitively.
pub fn to_upper_vec(s: &[u8]) -> (r: Vec<u8>)
    ensures
        r@ == upper_seq(s@),
{
    let n = s.len();
    let mut r: Vec<u8> = Vec::new();
    let mut i: usize = 0;
    while i < n
        invariant
            0 <= i <= n,
            n == s@.len(),
            r@ == upper_seq(s@.subrange(0, i as int)),
        decreases n - i,
    {
        let b = s[i];
        let u = if b >= 97 && b <= 122 {
            b - 32
        } else {
            b
        };
        r.push(u);
        proof {
            assert(r@ =~= upper_seq(s@.subrange(0, i + 1)));
        }
        i += 1;
    }
    proof {
        assert(s@.subrange(0, n as int) =~= s@);
    }
    r
}

} // verus!
