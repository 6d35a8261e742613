//! Virtual paths and the sandbox. A virtual path is what the client sees:
//! absolute, `/`-separated, always below the configured root. This module
//! joins candidate paths onto the working directory, maps them to real
//! filesystem paths below the root, and — the security-critical part —
//! accepts a canonicalized real path only when it equals the root or lies
//! below it. All statements are over a path's UTF-8 bytes, where `/` is one
//! byte that never occurs inside a multi-byte character.
//!
//! Canonicalization itself (resolving `.`, `..` and symlinks against the
//! disk) is filesystem work done by the surrounding binary; whatever it
//! hands back goes through the checks here before it is believed.

use vstd::prelude::*;
use vstd::string::{StrSliceExecFns, StringExecFns, StringSliceAdditionalSpecFns};
use vstd::utf8::{encode_utf8, encode_utf8_valid_utf8, is_char_boundary, valid_utf8};

use crate::text::{bytes_eq, lemma_ascii_boundary, lemma_encode_utf8_concat};

verus! {

/// The UTF-8 bytes of a character sequence: how a `String` value looks on
/// the wire and to the filesystem.
pub open spec fn sbytes(s: Seq<char>) -> Seq<u8> {
    encode_utf8(s)
}

/// A well-formed virtual path: starts with `/`, and has no empty segment
/// (no trailing `/` except the root itself, no `//`).
pub open spec fn wf_vpath(b: Seq<u8>) -> bool {
    &&& b.len() >= 1
    &&& b[0] == 47
    &&& (b.len() == 1 || b.last() != 47)
    &&& forall|i: int| 0 < i < b.len() ==> !(b[i - 1] == 47 && #[trigger] b[i] == 47)
}

/// A `..` segment starts at `i`: two dots bounded by separators or the ends.
pub open spec fn dotdot_at(b: Seq<u8>, i: int) -> bool {
    &&& 0 <= i
    &&& i + 2 <= b.len()
    &&& b[i] == 46 && b[i + 1] == 46
    &&& (i == 0 || b[i - 1] == 47)
    &&& (i + 2 == b.len() || b[i + 2] == 47)
}

/// The path names a parent directory somewhere.
pub open spec fn has_dotdot(b: Seq<u8>) -> bool {
    exists|i: int| dotdot_at(b, i)
}

/// Whether a path contains a parent-directory segment. Uploads reject such
/// paths outright, since a target that does not exist yet cannot be
/// canonicalized and checked after the fact.
pub fn invalid_path(path: &str) -> (r: bool)
    ensures
        r == has_dotdot(path.spec_bytes()),
{
    let b = path.as_bytes();
    let n = b.len();
    if n < 2 {
        proof {
            assert(!has_dotdot(b@)) by {
                assert(forall|i: int| dotdot_at(b@, i) ==> i + 2 <= b@.len() && i >= 0);
            }
        }
        return false;
    }
    let mut i: usize = 0;
    while i <= n - 2
        invariant
            b@ == path.spec_bytes(),
            2 <= n,
            0 <= i <= n - 1,
            n == b@.len(),
            forall|j: int| 0 <= j < i ==> !dotdot_at(b@, j),
        decreases n - i,
    {
        if b[i] == 46 && b[i + 1] == 46 && (i == 0 || b[i - 1] == 47) && (i + 2 == n || b[i + 2]
            == 47) {
            proof {
                assert(dotdot_at(b@, i as int));
            }
            return true;
        }
        proof {
            assert(!dotdot_at(b@, i as int));
        }
        i += 1;
    }
    proof {
        assert(forall|j: int| dotdot_at(b@, j) ==> 0 <= j && j + 2 <= n);
        assert(!has_dotdot(b@));
    }
    false
}

/// Joining a candidate onto the working directory: an absolute candidate
/// replaces it, a relative one goes below it.
pub open spec fn join_vpath(cwd: Seq<u8>, p: Seq<u8>) -> Seq<u8> {
    if p.len() > 0 && p[0] == 47 {
        p
    } else if cwd.len() > 0 && cwd.last() == 47 {
        cwd + p
    } else {
        cwd + seq![47u8] + p
    }
}

/// Joins a candidate path onto the working directory.
pub fn join_virtual(cwd: &str, p: &str) -> (r: String)
    ensures
        sbytes(r@) == join_vpath(cwd.spec_bytes(), p.spec_bytes()),
{
    proof {
        reveal_strlit("/");
        lemma_slash_bytes();
    }
    let pb = p.as_bytes();
    if pb.len() > 0 && pb[0] == 47 {
        p.to_owned()
    } else {
        let cb = cwd.as_bytes();
        if cb.len() > 0 && cb[cb.len() - 1] == 47 {
            let r = cwd.to_owned().concat(p);
            proof {
                lemma_encode_utf8_concat(cwd@, p@);
            }
            r
        } else {
            let r = cwd.to_owned().concat("/").concat(p);
            proof {
                lemma_encode_utf8_concat(cwd@, "/"@);
                lemma_encode_utf8_concat(cwd@ + "/"@, p@);
                assert(sbytes(r@) =~= join_vpath(cwd.spec_bytes(), p.spec_bytes()));
            }
            r
        }
    }
}

/// The bytes of the one-character string `"/"`.
pub proof fn lemma_slash_bytes()
    ensures
        "/"@ == seq!['/'],
        sbytes(seq!['/']) == seq![47u8],
        '/' as u8 == 47,
{
    reveal_strlit("/");
    assert("/"@ =~= seq!['/']);
    vstd::utf8::is_ascii_chars_encode_utf8(seq!['/']);
    assert(sbytes(seq!['/']) =~= seq![47u8]);
}

/// The real path a virtual path stands for: the root with the virtual path
/// appended.
pub open spec fn real_of(root: Seq<u8>, v: Seq<u8>) -> Seq<u8> {
    root + v
}

/// Maps a virtual path below the root.
pub fn to_real(root: &str, v: &str) -> (r: String)
    ensures
        sbytes(r@) == real_of(root.spec_bytes(), v.spec_bytes()),
{
    let r = root.to_owned().concat(v);
    proof {
        lemma_encode_utf8_concat(root@, v@);
    }
    r
}

/// The sandbox acceptance condition: the path is the root itself, or the
/// root followed by a separator and more.
pub open spec fn is_under(root: Seq<u8>, q: Seq<u8>) -> bool {
    ||| q == root
    ||| (q.len() > root.len() && q.subrange(0, root.len() as int) == root && q[root.len() as int]
        == 47)
}

/// Law: a path the sandbox accepts extends the root, either exactly or with
/// a `/`-led suffix — it can never name anything beside or above the root.
pub proof fn lemma_under_root_extends(root: Seq<u8>, q: Seq<u8>)
    requires
        is_under(root, q),
    ensures
        q == root || (exists|suffix: Seq<u8>|
            q == root + suffix && suffix.len() > 0 && suffix[0] == 47),
{
    if q != root {
        let suffix = q.subrange(root.len() as int, q.len() as int);
        assert(q =~= root + suffix);
        assert(suffix[0] == 47);
    }
}

/// Law: an upload target — the root extended by the candidate joined below
/// the working directory — always lies below the root, so a stored file can
/// never land beside or above it.
pub proof fn lemma_stor_target_under_root(root: Seq<u8>, cwd: Seq<u8>, p: Seq<u8>)
    requires
        cwd.len() > 0,
        cwd[0] == 47,
    ensures
        is_under(root, real_of(root, join_vpath(cwd, p))),
{
    assert(real_of(root, join_vpath(cwd, p)).subrange(0, root.len() as int) =~= root);
}

/// Decides [`is_under`]: whether a canonicalized real path may be touched.
pub fn sandbox_accept(root: &str, q: &str) -> (r: bool)
    ensures
        r == is_under(root.spec_bytes(), q.spec_bytes()),
{
    let rb = root.as_bytes();
    let qb = q.as_bytes();
    if bytes_eq(qb, rb) {
        return true;
    }
    if qb.len() <= rb.len() {
        return false;
    }
    if qb[rb.len()] != 47 {
        return false;
    }
    let mut i: usize = 0;
    let n = rb.len();
    while i < n
        invariant
            rb@ == root.spec_bytes(),
            qb@ == q.spec_bytes(),
            0 <= i <= n,
            n == rb@.len() < qb@.len(),
            forall|j: int| 0 <= j < i ==> rb@[j] == qb@[j],
        decreases n - i,
    {
        if rb[i] != qb[i] {
            proof {
                assert(qb@.subrange(0, n as int)[i as int] != rb@[i as int]);
            }
            return false;
        }
        i += 1;
    }
    proof {
        assert(qb@.subrange(0, n as int) =~= rb@);
    }
    true
}

/// The virtual path a contained real path stands for: `/` for the root
/// itself, else everything past the root.
pub open spec fn strip_root_spec(root: Seq<u8>, q: Seq<u8>) -> Seq<u8> {
    if q == root {
        seq![47u8]
    } else {
        q.subrange(root.len() as int, q.len() as int)
    }
}

/// Turns a contained real path back into the virtual path it stands for.
pub fn strip_root(root: &str, q: &str) -> (r: String)
    requires
        is_under(root.spec_bytes(), q.spec_bytes()),
    ensures
        sbytes(r@) == strip_root_spec(root.spec_bytes(), q.spec_bytes()),
{
    let rb_len = root.as_bytes().len();
    let qb_len = q.as_bytes().len();
    if qb_len == rb_len {
        proof {
            reveal_strlit("/");
            lemma_slash_bytes();
            assert(q.spec_bytes() == root.spec_bytes()) by {
                assert(q.spec_bytes().len() == root.spec_bytes().len());
            }
        }
        let r = "/".to_owned();
        r
    } else {
        proof {
            encode_utf8_valid_utf8(q@);
            lemma_ascii_boundary(q.spec_bytes(), rb_len as int);
        }
        let (_, tail) = q.split_at(rb_len);
        tail.to_owned()
    }
}

/// Law: for a path strictly below the root, mapping the virtual path it
/// stands for back below the root yields the same real path — resolution
/// and stripping are inverse to each other there.
pub proof fn lemma_strip_root_round_trip(root: Seq<u8>, q: Seq<u8>)
    requires
        is_under(root, q),
        q != root,
    ensures
        real_of(root, strip_root_spec(root, q)) == q,
{
    assert(root + q.subrange(root.len() as int, q.len() as int) =~= q);
}

/// The parent of a virtual path: everything before the last separator, or
/// the root when the last separator leads the path.
pub open spec fn parent_vpath(b: Seq<u8>) -> Seq<u8> {
    let k = rindex_of_byte(b, 47, b.len() - 1);
    if k <= 0 {
        seq![47u8]
    } else {
        b.subrange(0, k)
    }
}

/// The last position at or before `i` holding `b`, or `-1` if there is
/// none.
pub open spec fn rindex_of_byte(s: Seq<u8>, b: u8, i: int) -> int
    decreases i + 1,
{
    if i < 0 || i >= s.len() {
        -1
    } else if s[i] == b {
        i
    } else {
        rindex_of_byte(s, b, i - 1)
    }
}

pub proof fn lemma_rindex_of_byte_is(s: Seq<u8>, b: u8, from: int, r: int)
    requires
        -1 <= r <= from < s.len(),
        forall|j: int| r < j <= from ==> s[j] != b,
        r >= 0 ==> s[r] == b,
    ensures
        rindex_of_byte(s, b, from) == r,
    decreases from - r,
{
    if r < from {
        lemma_rindex_of_byte_is(s, b, from - 1, r);
    }
}

/// Finds the last occurrence of a byte.
fn rfind_byte(s: &[u8], b: u8) -> (r: Option<usize>)
    ensures
        match r {
            Option::Some(k) => k == rindex_of_byte(s@, b, s@.len() - 1) && k < s@.len() && s@[k as int] == b,
            Option::None => rindex_of_byte(s@, b, s@.len() - 1) == -1,
        },
{
    let n = s.len();
    let mut i = n;
    while i > 0
        invariant
            0 <= i <= n,
            n == s@.len(),
            forall|j: int| i <= j < n ==> s@[j] != b,
        decreases i,
    {
        i -= 1;
        if s[i] == b {
            proof {
                lemma_rindex_of_byte_is(s@, b, n - 1, i as int);
            }
            return Some(i);
        }
    }
    proof {
        if n > 0 {
            lemma_rindex_of_byte_is(s@, b, n - 1, -1);
        }
    }
    None
}

/// The parent of a virtual path; the root is its own parent.
pub fn parent_of(s: &str) -> (r: String)
    ensures
        sbytes(r@) == parent_vpath(s.spec_bytes()),
{
    proof {
        reveal_strlit("/");
        lemma_slash_bytes();
    }
    let b = s.as_bytes();
    match rfind_byte(b, 47) {
        Some(k) if k > 0 => {
            proof {
                encode_utf8_valid_utf8(s@);
                lemma_ascii_boundary(s.spec_bytes(), k as int);
            }
            let (head, _) = s.split_at(k);
            head.to_owned()
        },
        _ => "/".to_owned(),
    }
}

/// A well-formed path's parent is well formed.
pub proof fn lemma_parent_wf(b: Seq<u8>)
    requires
        wf_vpath(b),
    ensures
        wf_vpath(parent_vpath(b)),
{
    let k = rindex_of_byte(b, 47, b.len() - 1);
    if k > 0 {
        let p = b.subrange(0, k);
        lemma_rindex_props(b, 47, b.len() - 1);
        assert(b[k] == 47);
        assert(p.last() == b[k - 1]);
        assert(!(b[k - 1] == 47 && b[k] == 47));
        assert(wf_vpath(p));
    }
}

proof fn lemma_rindex_props(s: Seq<u8>, b: u8, from: int)
    requires
        0 <= from < s.len(),
    ensures
        -1 <= rindex_of_byte(s, b, from) <= from,
        rindex_of_byte(s, b, from) >= 0 ==> s[rindex_of_byte(s, b, from)] == b,
        forall|j: int| rindex_of_byte(s, b, from) < j <= from ==> s[j] != b,
    decreases from + 1,
{
    if s[from] == b {
    } else if from == 0 {
        assert(rindex_of_byte(s, b, -1) == -1);
    } else {
        lemma_rindex_props(s, b, from - 1);
    }
}

/// The last segment of a virtual path: everything past the last separator.
pub open spec fn filename_vpath(b: Seq<u8>) -> Seq<u8> {
    let k = rindex_of_byte(b, 47, b.len() - 1);
    b.subrange(k + 1, b.len() as int)
}

/// The last segment of a virtual path.
pub fn filename_of(s: &str) -> (r: String)
    ensures
        sbytes(r@) == filename_vpath(s.spec_bytes()),
{
    let b = s.as_bytes();
    let n = b.len();
    match rfind_byte(b, 47) {
        Some(k) => {
            proof {
                assert(k < n);
                lemma_rindex_props(s.spec_bytes(), 47, s.spec_bytes().len() - 1);
                encode_utf8_valid_utf8(s@);
                if k + 1 < s.spec_bytes().len() {
                    lemma_not_continuation_after_ascii(s.spec_bytes(), k as int);
                }
                lemma_ascii_boundary_general(s.spec_bytes(), k as int + 1);
            }
            let (_, tail) = s.split_at(k + 1);
            tail.to_owned()
        },
        None => {
            proof {
                assert(s.spec_bytes() =~= filename_vpath(s.spec_bytes()));
            }
            s.to_owned()
        },
    }
}

/// In valid UTF-8, the byte after an ASCII byte is no continuation byte.
proof fn lemma_not_continuation_after_ascii(bytes: Seq<u8>, i: int)
    requires
        valid_utf8(bytes),
        0 <= i,
        i + 1 < bytes.len(),
        bytes[i] < 128,
    ensures
        !vstd::utf8::is_continuation_byte(bytes[i + 1]),
{
    vstd::utf8::is_char_boundary_iff_not_is_continuation_byte(bytes, i);
    lemma_ascii_boundary(bytes, i);
    lemma_boundary_step(bytes, i);
    vstd::utf8::is_char_boundary_iff_not_is_continuation_byte(bytes, i + 1);
}

/// In valid UTF-8, the position after a one-byte character on a boundary is
/// again a boundary.
proof fn lemma_boundary_step(bytes: Seq<u8>, i: int)
    requires
        valid_utf8(bytes),
        0 <= i,
        i + 1 <= bytes.len(),
        bytes[i] < 128,
        is_char_boundary(bytes, i),
    ensures
        is_char_boundary(bytes, i + 1),
    decreases bytes.len(),
{
    if i == 0 {
        reveal_with_fuel(is_char_boundary, 2);
        assert(vstd::utf8::length_of_first_scalar(bytes) == 1);
        vstd::utf8::is_char_boundary_start_end_of_seq(vstd::utf8::pop_first_scalar(bytes));
    } else {
        let rest = vstd::utf8::pop_first_scalar(bytes);
        let l = vstd::utf8::length_of_first_scalar(bytes);
        reveal_with_fuel(is_char_boundary, 2);
        assert(vstd::utf8::valid_utf8(rest));
        lemma_boundary_step(rest, i - l);
    }
}

/// Like [`lemma_ascii_boundary`], at a position known only to follow an
/// ASCII byte.
proof fn lemma_ascii_boundary_general(bytes: Seq<u8>, i: int)
    requires
        valid_utf8(bytes),
        0 <= i <= bytes.len(),
        i < bytes.len() ==> !vstd::utf8::is_continuation_byte(bytes[i]),
    ensures
        is_char_boundary(bytes, i),
{
    if i < bytes.len() {
        vstd::utf8::is_char_boundary_iff_not_is_continuation_byte(bytes, i);
    } else {
        vstd::utf8::is_char_boundary_start_end_of_seq(bytes);
    }
}

/// Decides [`wf_vpath`], so that nothing from outside is believed to be a
/// virtual path without a check.
pub fn vpath_wf(s: &str) -> (r: bool)
    ensures
        r == wf_vpath(s.spec_bytes()),
{
    let b = s.as_bytes();
    let n = b.len();
    if n == 0 {
        return false;
    }
    if b[0] != 47 {
        return false;
    }
    if n > 1 && b[n - 1] == 47 {
        return false;
    }
    let mut i: usize = 1;
    while i < n
        invariant
            b@ == s.spec_bytes(),
            1 <= i <= n,
            n == b@.len(),
            b@[0] == 47,
            n > 1 ==> b@[n - 1] != 47,
            forall|j: int| 0 < j < i ==> !(b@[j - 1] == 47 && #[trigger] b@[j] == 47),
        decreases n - i,
    {
        if b[i - 1] == 47 && b[i] == 47 {
            return false;
        }
        i += 1;
    }
    true
}

} // verus!
