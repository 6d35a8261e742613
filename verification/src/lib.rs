//! Core protocol engine for a line-oriented, two-channel file-transfer server.
//!
//! The library holds everything about the protocol that can be stated and
//! proved: the command grammar and its total parser, the CRLF line-framing
//! codec, the per-connection session state machine (authentication, working
//! directory, transfer negotiation), and the path-resolution sandbox that
//! keeps every file operation below the configured root. Sockets, the real
//! filesystem and configuration loading live outside, in the surrounding
//! binary, which drives this library and performs the actions it decides on.

pub mod cmd;
pub mod codec;
pub mod config;
pub mod error;
pub mod ftp;
pub mod listing;
pub mod paths;
pub mod session;
pub mod text;
