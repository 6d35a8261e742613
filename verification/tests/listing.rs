//! Listing lines and the whole rendered listing.

use ftp_core::cmd::Command;
use ftp_core::config::Config;
use ftp_core::listing::{format_entry, render_listing, FileInfo};
use ftp_core::session::Session;

fn info(path: &str, name: &str, is_dir: bool, size: u64) -> FileInfo {
    FileInfo {
        path: path.to_string(),
        name: name.to_string(),
        is_dir,
        readonly: false,
        size,
        month: 9,
        day: 3,
        hour: 7,
        min: 5,
    }
}

#[test]
fn entry_line_format_is_exact() {
    let f = FileInfo {
        path: "/srv/ftp/notes.txt".to_string(),
        name: "notes.txt".to_string(),
        is_dir: false,
        readonly: true,
        size: 1234,
        month: 0,
        day: 15,
        hour: 9,
        min: 30,
    };
    assert_eq!(
        format_entry(&f),
        "-r--r--r-- 1 anonymous anonymous 1234 Jan 15 09:30 notes.txt\r\n"
    );
    let d = info("/srv/ftp/docs", "docs", true, 4096);
    assert_eq!(
        format_entry(&d),
        "drw-rw-rw- 1 anonymous anonymous 4096 Oct 3 07:05 docs/\r\n"
    );
}

#[test]
fn largest_size_renders_in_full() {
    let f = FileInfo { size: u64::MAX, readonly: false, ..info("/srv/ftp/big", "big", false, 0) };
    assert_eq!(
        format_entry(&f),
        "-rw-rw-rw- 1 anonymous anonymous 18446744073709551615 Oct 3 07:05 big\r\n"
    );
}

fn plain_session(admin: bool) -> Session {
    let config = Config {
        server_port: None,
        server_addr: None,
        users: vec![ftp_core::config::User {
            name: "anonymous".to_string(),
            password: "".to_string(),
        }],
        admin: Some(ftp_core::config::User {
            name: "root".to_string(),
            password: "".to_string(),
        }),
    };
    let mut s = Session::new("/srv/ftp".to_string(), config);
    let name = if admin { "root" } else { "anonymous" };
    let _ = s.handle_cmd(Command::User(name.to_string()));
    assert!(s.is_logged());
    assert_eq!(s.is_admin, admin);
    s
}

#[test]
fn listing_hides_the_configuration_file_from_ordinary_users() {
    let entries = vec![
        info("/srv/ftp/a.txt", "a.txt", false, 1),
        info("/srv/ftp/config.toml", "config.toml", false, 2),
        info("/srv/ftp/docs", "docs", true, 4096),
    ];

    let s = plain_session(false);
    let rendered = String::from_utf8(render_listing(&s, &entries)).unwrap();
    assert!(rendered.contains("a.txt"));
    assert!(!rendered.contains("config.toml"));
    assert!(rendered.contains("docs/"));
    assert_eq!(rendered.matches("\r\n").count(), 2);

    let s = plain_session(true);
    let rendered = String::from_utf8(render_listing(&s, &entries)).unwrap();
    assert!(rendered.contains("config.toml"));
    assert_eq!(rendered.matches("\r\n").count(), 3);
}
