//! The configuration the server is started with: where to listen, the
//! credential store, and the optional distinguished admin credential. The
//! core only reads it; loading and creating the configuration file is the
//! surrounding binary's work.

use vstd::prelude::*;

verus! {

pub const DEFAULT_PORT: u16 = 1234;

/// One credential. An empty password means none is required.
#[derive(Clone, Debug)]
pub struct User {
    pub name: String,
    pub password: String,
}

#[derive(Clone, Debug)]
pub struct Config {
    pub server_port: Option<u16>,
    pub server_addr: Option<String>,
    pub users: Vec<User>,
    pub admin: Option<User>,
}

} // verus!
