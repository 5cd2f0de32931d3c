//! What a Lua server client makes of each reply.

use vstd::prelude::*;
use super::Response;
use crate::text::{chars_of, string_from_chars};

verus! {

fn text(s: &str) -> (r: String)
    ensures
        r@ == s@,
{
    let v = chars_of(s);
    string_from_chars(v.as_slice())
}

/// An error reply gives its message; any other reply is handed to
/// `take_expected`, and a reply it does not take is "Unexpected response".
pub fn response_result<T>(response: Response, take_expected: impl FnOnce(Response) -> Option<T>) -> (r:
    Result<T, String>)
    requires
        !(response is Error) ==> take_expected.requires((response,)),
    ensures
        match response {
            Response::Error(e) => r matches Err(m) && m@ == e@,
            _ => exists|o: Option<T>|
                call_ensures(take_expected, (response,), o) && match o {
                    Some(t) => r == Ok::<T, String>(t),
                    None => r matches Err(m) && m@ == "Unexpected response"@,
                },
        },
{
    match response {
        Response::Error(e) => Err(e),
        other => {
            let taken = take_expected(other);
            match taken {
                Some(t) => Ok(t),
                None => Err(text("Unexpected response")),
            }
        },
    }
}

/// The result of an `Exec` request: its output, or why it failed.
pub fn exec(response: Response) -> (r: Result<String, String>)
    ensures
        match response {
            Response::Output(s) => r matches Ok(o) && o@ == s@,
            Response::Error(e) => r matches Err(m) && m@ == e@,
            Response::Pong => r matches Err(m) && m@ == "Unexpected pong"@,
            Response::Tree(_) => r matches Err(m) && m@ == "Unexpected tree"@,
            Response::Quads(_) => r matches Err(m) && m@ == "Unexpected quads"@,
        },
{
    match response {
        Response::Output(s) => Ok(s),
        Response::Error(e) => Err(e),
        Response::Pong => Err(text("Unexpected pong")),
        Response::Tree(_) => Err(text("Unexpected tree")),
        Response::Quads(_) => Err(text("Unexpected quads")),
    }
}

/// The meaning of a reply that is expected to carry output (the reply to
/// `StreamFrame`, `AdvanceFrameTime`, `MouseMove` and `MouseClick`).
pub fn output_result(response: Response) -> (r: Result<String, String>)
    ensures
        match response {
            Response::Output(s) => r matches Ok(o) && o@ == s@,
            Response::Error(e) => r matches Err(m) && m@ == e@,
            _ => r matches Err(m) && m@ == "Unexpected response"@,
        },
{
    match response {
        Response::Output(s) => Ok(s),
        Response::Error(e) => Err(e),
        _ => Err(text("Unexpected response")),
    }
}

/// The result of a `Ping`: the server is alive when it answers `Pong`.
pub fn ping(response: Response) -> (r: Result<(), String>)
    ensures
        match response {
            Response::Pong => r is Ok,
            Response::Error(e) => r matches Err(m) && m@ == e@,
            _ => r matches Err(m) && m@ == "Unexpected response"@,
        },
{
    match response {
        Response::Pong => Ok(()),
        Response::Error(e) => Err(e),
        _ => Err(text("Unexpected response")),
    }
}

/// The result of a `Screenshot` request: the server's report, or why it failed.
pub fn screenshot(response: Response) -> (r: Result<String, String>)
    ensures
        match response {
            Response::Output(s) => r matches Ok(o) && o@ == s@,
            Response::Error(e) => r matches Err(m) && m@ == e@,
            _ => r matches Err(m) && m@ == "Unexpected response"@,
        },
{
    output_result(response)
}

/// The result of a `DumpTree` request: the dumped tree, or why it failed.
pub fn dump_tree(response: Response) -> (r: Result<String, String>)
    ensures
        match response {
            Response::Tree(s) => r matches Ok(o) && o@ == s@,
            Response::Error(e) => r matches Err(m) && m@ == e@,
            _ => r matches Err(m) && m@ == "Unexpected response"@,
        },
{
    match response {
        Response::Tree(s) => Ok(s),
        Response::Error(e) => Err(e),
        _ => Err(text("Unexpected response")),
    }
}

/// The result of a `DumpQuads` request: the dumped quads, or why it failed.
pub fn dump_quads(response: Response) -> (r: Result<String, String>)
    ensures
        match response {
            Response::Quads(s) => r matches Ok(o) && o@ == s@,
            Response::Error(e) => r matches Err(m) && m@ == e@,
            _ => r matches Err(m) && m@ == "Unexpected response"@,
        },
{
    match response {
        Response::Quads(s) => Ok(s),
        Response::Error(e) => Err(e),
        _ => Err(text("Unexpected response")),
    }
}

/// The result of a `StreamFrame` request.
pub fn stream_frame(response: Response) -> (r: Result<String, String>)
    ensures
        match response {
            Response::Output(s) => r matches Ok(o) && o@ == s@,
            Response::Error(e) => r matches Err(m) && m@ == e@,
            _ => r matches Err(m) && m@ == "Unexpected response"@,
        },
{
    output_result(response)
}

/// The result of an `AdvanceFrameTime` request.
pub fn advance_frame_time(response: Response) -> (r: Result<String, String>)
    ensures
        match response {
            Response::Output(s) => r matches Ok(o) && o@ == s@,
            Response::Error(e) => r matches Err(m) && m@ == e@,
            _ => r matches Err(m) && m@ == "Unexpected response"@,
        },
{
    output_result(response)
}

/// The result of a `MouseMove` request.
pub fn mouse_move(response: Response) -> (r: Result<String, String>)
    ensures
        match response {
            Response::Output(s) => r matches Ok(o) && o@ == s@,
            Response::Error(e) => r matches Err(m) && m@ == e@,
            _ => r matches Err(m) && m@ == "Unexpected response"@,
        },
{
    output_result(response)
}

/// The result of a `MouseClick` request: the clicked or hovered frame.
pub fn mouse_click(response: Response) -> (r: Result<String, String>)
    ensures
        match response {
            Response::Output(s) => r matches Ok(o) && o@ == s@,
            Response::Error(e) => r matches Err(m) && m@ == e@,
            _ => r matches Err(m) && m@ == "Unexpected response"@,
        },
{
    output_result(response)
}

} // verus!
