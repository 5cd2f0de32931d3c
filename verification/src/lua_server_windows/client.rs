//! Client entry points without IPC support: each one fails with
//! `UNSUPPORTED` and finds no server.

use vstd::prelude::*;
use super::UNSUPPORTED;
use crate::text::{chars_of, string_from_chars};

verus! {

/// The unsupported-IPC error message.
pub open spec fn unsupported_message() -> Seq<char> {
    "lua_server IPC is not supported on Windows yet"@
}

fn unsupported() -> (r: String)
    ensures
        r@ == unsupported_message(),
{
    let v = chars_of(UNSUPPORTED);
    string_from_chars(v.as_slice())
}

/// Executing code: not supported.
pub fn exec(_socket: &str, _code: &str) -> (r: Result<String, String>)
    ensures
        r matches Err(m) && m@ == unsupported_message(),
{
    Err(unsupported())
}

/// Pinging a server: not supported.
pub fn ping(_socket: &str) -> (r: Result<(), String>)
    ensures
        r matches Err(m) && m@ == unsupported_message(),
{
    Err(unsupported())
}

/// Finding servers: there are none.
pub fn find_servers() -> (r: Vec<String>)
    ensures
        r@.len() == 0,
{
    Vec::new()
}

/// Taking a screenshot: not supported.
pub fn screenshot(
    _socket: &str,
    _output: &str,
    _width: u32,
    _height: u32,
    _filter: Option<String>,
    _crop: Option<String>,
) -> (r: Result<String, String>)
    ensures
        r matches Err(m) && m@ == unsupported_message(),
{
    Err(unsupported())
}

/// Dumping the frame tree: not supported.
pub fn dump_tree(
    _socket: &str,
    _filter: Option<String>,
    _filter_key: Option<String>,
    _visible_only: bool,
    _verbose: bool,
) -> (r: Result<String, String>)
    ensures
        r matches Err(m) && m@ == unsupported_message(),
{
    Err(unsupported())
}

/// Dumping live quads: not supported.
pub fn dump_quads(_socket: &str, _filter: Option<String>, _verbose: bool) -> (r: Result<
    String,
    String,
>)
    ensures
        r matches Err(m) && m@ == unsupported_message(),
{
    Err(unsupported())
}

} // verus!
