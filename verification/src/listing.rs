//! Rendering of directory listings: one fixed-format text line per entry —
//! type flag, permission string, link count, owner and group placeholders,
//! size, date, name — with the server's configuration file hidden from
//! everyone but the admin. The surrounding binary gathers each entry's
//! metadata into a [`FileInfo`]; everything from there to the bytes on the
//! data channel is decided here.

use vstd::prelude::*;
use vstd::string::{StrSliceExecFns, StringExecFns};

use crate::paths::{real_of, sbytes};
use crate::session::{config_file_vpath, Session};
use crate::text::{dec_chars, u64_dec_string};

verus! {

/// One directory entry's metadata, as plain values: the real path (for the
/// visibility check), the printed name, whether it is a directory, the
/// read-only bit, the size in bytes, and the modification time split into
/// month (0 through 11), day, hour and minute.
#[derive(Clone, Debug)]
pub struct FileInfo {
    pub path: String,
    pub name: String,
    pub is_dir: bool,
    pub readonly: bool,
    pub size: u64,
    pub month: u8,
    pub day: u8,
    pub hour: u8,
    pub min: u8,
}

/// The three-letter month names, in calendar order.
pub open spec fn month_name(m: u8) -> Seq<char> {
    if m == 0 {
        "Jan"@
    } else if m == 1 {
        "Feb"@
    } else if m == 2 {
        "Mar"@
    } else if m == 3 {
        "Apr"@
    } else if m == 4 {
        "May"@
    } else if m == 5 {
        "Jun"@
    } else if m == 6 {
        "Jul"@
    } else if m == 7 {
        "Aug"@
    } else if m == 8 {
        "Sep"@
    } else if m == 9 {
        "Oct"@
    } else if m == 10 {
        "Nov"@
    } else {
        "Dec"@
    }
}

fn month_str(m: u8) -> (r: &'static str)
    ensures
        r@ == month_name(m),
{
    if m == 0 {
        "Jan"
    } else if m == 1 {
        "Feb"
    } else if m == 2 {
        "Mar"
    } else if m == 3 {
        "Apr"
    } else if m == 4 {
        "May"
    } else if m == 5 {
        "Jun"
    } else if m == 6 {
        "Jul"
    } else if m == 7 {
        "Aug"
    } else if m == 8 {
        "Sep"
    } else if m == 9 {
        "Oct"
    } else if m == 10 {
        "Nov"
    } else {
        "Dec"
    }
}

/// A number as two digits at least, zero-padded.
pub open spec fn pad2(n: u8) -> Seq<char> {
    if n < 10 {
        "0"@ + dec_chars(n as nat)
    } else {
        dec_chars(n as nat)
    }
}

fn pad2_string(n: u8) -> (r: String)
    ensures
        r@ == pad2(n),
{
    if n < 10 {
        "0".to_owned().concat(u64_dec_string(n as u64).as_str())
    } else {
        u64_dec_string(n as u64)
    }
}

/// One listing line: type flag, permissions, a link count of one, owner and
/// group placeholders, size, month, day, zero-padded hour and minute, the
/// name, a trailing separator on directories, and CRLF.
pub open spec fn entry_line(f: FileInfo) -> Seq<char> {
    (if f.is_dir {
        "d"@
    } else {
        "-"@
    }) + (if f.readonly {
        "r--r--r--"@
    } else {
        "rw-rw-rw-"@
    }) + " 1 anonymous anonymous "@ + dec_chars(f.size as nat) + " "@ + month_name(f.month) + " "@
        + dec_chars(f.day as nat) + " "@ + pad2(f.hour) + ":"@ + pad2(f.min) + " "@ + f.name@ + (
    if f.is_dir {
        "/"@
    } else {
        ""@
    }) + "\r\n"@
}

/// Renders one entry's listing line.
pub fn format_entry(f: &FileInfo) -> (r: String)
    ensures
        r@ == entry_line(*f),
{
    let mut line = if f.is_dir {
        "d".to_owned()
    } else {
        "-".to_owned()
    };
    line = line.concat(
        if f.readonly {
            "r--r--r--"
        } else {
            "rw-rw-rw-"
        },
    );
    line = line.concat(" 1 anonymous anonymous ");
    line = line.concat(u64_dec_string(f.size).as_str());
    line = line.concat(" ");
    line = line.concat(month_str(f.month));
    line = line.concat(" ");
    line = line.concat(u64_dec_string(f.day as u64).as_str());
    line = line.concat(" ");
    line = line.concat(pad2_string(f.hour).as_str());
    line = line.concat(":");
    line = line.concat(pad2_string(f.min).as_str());
    line = line.concat(" ");
    line = line.concat(f.name.as_str());
    if f.is_dir {
        line = line.concat("/");
    } else {
        line = line.concat("");
    }
    line = line.concat("\r\n");
    proof {
        assert(line@ =~= entry_line(*f));
    }
    line
}

/// What one entry contributes to the listing: its line's bytes, or nothing
/// when it is hidden.
pub open spec fn entry_bytes(admin: bool, root: Seq<u8>, f: FileInfo) -> Seq<u8> {
    if admin || sbytes(f.path@) != real_of(root, config_file_vpath()) {
        sbytes(entry_line(f))
    } else {
        Seq::<u8>::empty()
    }
}

/// The whole listing: each visible entry's line, in order.
pub open spec fn listing_bytes(admin: bool, root: Seq<u8>, entries: Seq<FileInfo>) -> Seq<u8>
    decreases entries.len(),
{
    if entries.len() == 0 {
        Seq::<u8>::empty()
    } else {
        entry_bytes(admin, root, entries[0]) + listing_bytes(admin, root, entries.drop_first())
    }
}

proof fn lemma_listing_push(admin: bool, root: Seq<u8>, entries: Seq<FileInfo>, f: FileInfo)
    ensures
        listing_bytes(admin, root, entries.push(f)) == listing_bytes(admin, root, entries)
            + entry_bytes(admin, root, f),
    decreases entries.len(),
{
    if entries.len() == 0 {
        assert(entries.push(f).drop_first() =~= entries);
        assert(listing_bytes(admin, root, entries) =~= Seq::<u8>::empty());
        assert(entry_bytes(admin, root, f) + Seq::<u8>::empty() =~= entry_bytes(admin, root, f));
        assert(Seq::<u8>::empty() + entry_bytes(admin, root, f) =~= entry_bytes(admin, root, f));
    } else {
        lemma_listing_push(admin, root, entries.drop_first(), f);
        assert(entries.push(f).drop_first() =~= entries.drop_first().push(f));
        assert(entries.push(f)[0] == entries[0]);
        assert(entry_bytes(admin, root, entries[0]) + (listing_bytes(
            admin,
            root,
            entries.drop_first(),
        ) + entry_bytes(admin, root, f)) =~= (entry_bytes(admin, root, entries[0]) + listing_bytes(
            admin,
            root,
            entries.drop_first(),
        )) + entry_bytes(admin, root, f));
    }
}

/// Renders the listing of the given entries, in order, leaving out what the
/// session may not see.
pub fn render_listing(s: &Session, entries: &Vec<FileInfo>) -> (r: Vec<u8>)
    ensures
        r@ == listing_bytes(s.is_admin, sbytes(s.server_root@), entries@),
{
    let mut out: Vec<u8> = Vec::new();
    let n = entries.len();
    let mut i: usize = 0;
    proof {
        assert(entries@.subrange(0, 0) =~= Seq::<FileInfo>::empty());
    }
    while i < n
        invariant
            0 <= i <= n,
            n == entries@.len(),
            out@ == listing_bytes(
                s.is_admin,
                sbytes(s.server_root@),
                entries@.subrange(0, i as int),
            ),
        decreases n - i,
    {
        let f = &entries[i];
        if s.entry_visible(f.path.as_str()) {
            let line = format_entry(f);
            out.extend_from_slice(line.as_str().as_bytes());
        }
        proof {
            assert(entries@.subrange(0, i + 1) =~= entries@.subrange(0, i as int).push(
                entries@[i as int],
            ));
            lemma_listing_push(
                s.is_admin,
                sbytes(s.server_root@),
                entries@.subrange(0, i as int),
                entries@[i as int],
            );
        }
        i += 1;
    }
    proof {
        assert(entries@.subrange(0, n as int) =~= entries@);
    }
    out
}

} // verus!
