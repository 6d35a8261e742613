//! The path helpers and the sandbox acceptance check.

use ftp_core::paths::{
    filename_of, invalid_path, join_virtual, parent_of, sandbox_accept, strip_root, to_real,
    vpath_wf,
};

#[test]
fn parent_segments_are_spotted_anywhere() {
    assert!(invalid_path(".."));
    assert!(invalid_path("../secret"));
    assert!(invalid_path("a/../b"));
    assert!(invalid_path("a/.."));
    assert!(invalid_path("/.."));
    assert!(!invalid_path(""));
    assert!(!invalid_path("a/b"));
    assert!(!invalid_path("..."));
    assert!(!invalid_path("a..b"));
    assert!(!invalid_path("..hidden"));
    assert!(!invalid_path("hidden.."));
}

#[test]
fn joining_is_absolute_or_below() {
    assert_eq!(join_virtual("/", "docs"), "/docs");
    assert_eq!(join_virtual("/a", "b/c"), "/a/b/c");
    assert_eq!(join_virtual("/a", "/b"), "/b");
    assert_eq!(join_virtual("/a", ""), "/a/");
}

#[test]
fn sandbox_accepts_only_the_root_and_below() {
    assert!(sandbox_accept("/srv/ftp", "/srv/ftp"));
    assert!(sandbox_accept("/srv/ftp", "/srv/ftp/a/b"));
    assert!(!sandbox_accept("/srv/ftp", "/srv"));
    assert!(!sandbox_accept("/srv/ftp", "/"));
    assert!(!sandbox_accept("/srv/ftp", "/etc/passwd"));
    // A sibling that extends the root's name letter for letter is outside.
    assert!(!sandbox_accept("/srv/ftp", "/srv/ftp2"));
    assert!(!sandbox_accept("/srv/ftp", "/srv/ftp2/x"));
}

#[test]
fn stripping_gives_the_virtual_path_back() {
    assert_eq!(strip_root("/srv/ftp", "/srv/ftp"), "/");
    assert_eq!(strip_root("/srv/ftp", "/srv/ftp/a/b"), "/a/b");
    assert_eq!(to_real("/srv/ftp", "/a/b"), "/srv/ftp/a/b");
}

#[test]
fn parents_and_filenames() {
    assert_eq!(parent_of("/a/b"), "/a");
    assert_eq!(parent_of("/a"), "/");
    assert_eq!(parent_of("/"), "/");
    assert_eq!(filename_of("/a/b"), "b");
    assert_eq!(filename_of("/a"), "a");
    assert_eq!(filename_of("/"), "");
}

#[test]
fn well_formed_virtual_paths() {
    assert!(vpath_wf("/"));
    assert!(vpath_wf("/a/b"));
    assert!(!vpath_wf(""));
    assert!(!vpath_wf("a"));
    assert!(!vpath_wf("/a/"));
    assert!(!vpath_wf("//a"));
}
