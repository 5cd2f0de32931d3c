//! The Lua server's surface where Unix-domain sockets are unavailable: every
//! client entry point reports that the IPC bridge is not supported.

use vstd::prelude::*;

pub mod client;

verus! {

/// The message every unsupported entry point returns.
pub const UNSUPPORTED: &'static str = "lua_server IPC is not supported on Windows yet";

/// Reply of the Lua server.
#[derive(Debug, PartialEq, Eq)]
pub enum Response {
    Output(String),
    Error(String),
    Pong,
    Tree(String),
    Quads(String),
}

} // verus!
