//! Replies of the simulator's Lua server and the naming of its sockets.
//!
//! A running simulator listens on `/tmp/wow-lua-<pid>.sock`; a client sends
//! one JSON request per connection and reads one JSON reply. The socket I/O
//! and the JSON encoding sit outside the library; the library reads the
//! socket names and decides what each reply means to the client.

use vstd::prelude::*;
use crate::text::{chars_of, decimal, has_prefix, lemma_decimal_digits, parse_i32, push_decimal, push_str, spec_parse_i32, starts_with_chars, string_from_chars};

pub mod client;

verus! {

/// Reply of the Lua server.
#[derive(Debug, PartialEq, Eq)]
pub enum Response {
    /// Execution result (captured print output).
    Output(String),
    /// Error message.
    Error(String),
    /// Reply to a ping.
    Pong,
    /// Frame tree dump.
    Tree(String),
    /// Live quad dump.
    Quads(String),
}

/// Index of the last `/` in `p`, or `-1`.
pub open spec fn last_slash(p: Seq<char>) -> int
    decreases p.len(),
{
    if p.len() == 0 {
        -1
    } else if p.last() == '/' {
        p.len() - 1
    } else {
        last_slash(p.drop_last())
    }
}

/// The final component of a path: trailing separators and `.` components
/// are ignored, as `Path::file_name` ignores them.
pub open spec fn file_name(p: Seq<char>) -> Seq<char>
    decreases p.len(),
{
    if p.len() == 0 {
        p
    } else if p.last() == '/' {
        file_name(p.drop_last())
    } else if p.last() == '.' && (p.len() == 1 || p[p.len() - 2] == '/') {
        file_name(p.drop_last())
    } else {
        p.subrange(last_slash(p) + 1, p.len() as int)
    }
}

/// The process id in a socket name `wow-lua-<pid>.sock`.
pub open spec fn spec_socket_pid(path: Seq<char>) -> Option<i32> {
    let f = file_name(path);
    if has_prefix(f, "wow-lua-"@) && f.len() >= 13 && f.subrange(f.len() - 5, f.len() as int)
        == ".sock"@ {
        spec_parse_i32(f.subrange(8, f.len() - 5))
    } else {
        None
    }
}

proof fn lemma_last_slash(p: Seq<char>)
    ensures
        -1 <= last_slash(p) < p.len(),
        last_slash(p) >= 0 ==> p[last_slash(p)] == '/',
        forall|k: int| last_slash(p) < k < p.len() ==> #[trigger] p[k] != '/',
    decreases p.len(),
{
    if p.len() > 0 && p.last() != '/' {
        lemma_last_slash(p.drop_last());
        assert forall|k: int| last_slash(p) < k < p.len() implies #[trigger] p[k] != '/' by {
            if k < p.len() - 1 {
                assert(p.drop_last()[k] == p[k]);
            }
        }
    }
}

/// The final component of a path.
fn file_name_of(path: &str) -> (r: Vec<char>)
    ensures
        r@ == file_name(path@),
{
    let v = chars_of(path);
    let mut end = v.len();
    assert(v@.subrange(0, end as int) == v@);
    while end > 0 && (v[end - 1] == '/' || (v[end - 1] == '.' && (end == 1 || v[end - 2] == '/')))
        invariant
            end <= v@.len(),
            v@ == path@,
            file_name(path@) == file_name(v@.subrange(0, end as int)),
        decreases end,
    {
        assert(v@.subrange(0, end - 1) == v@.subrange(0, end as int).drop_last());
        end = end - 1;
    }
    let ghost p = v@.subrange(0, end as int);
    proof {
        lemma_last_slash(p);
    }
    let mut start = end;
    while start > 0 && v[start - 1] != '/'
        invariant
            start <= end <= v@.len(),
            p == v@.subrange(0, end as int),
            forall|k: int| start <= k < end ==> #[trigger] v@[k] != '/',
            last_slash(p) < start,
            last_slash(p) >= 0 ==> p[last_slash(p)] == '/',
            -1 <= last_slash(p) < p.len(),
            p.len() == end,
        decreases start,
    {
        start = start - 1;
    }
    proof {
        if start > 0 {
            assert(p[start - 1] == '/');
            assert(last_slash(p) == start - 1) by {
                lemma_last_slash(p);
                if last_slash(p) < start - 1 {
                    assert(p[start - 1] != '/');
                }
            }
        } else {
            assert(last_slash(p) == -1) by {
                lemma_last_slash(p);
                if last_slash(p) >= 0 {
                    assert(v@[last_slash(p)] != '/');
                }
            }
        }
    }
    let mut out: Vec<char> = Vec::new();
    let mut k = start;
    while k < end
        invariant
            start <= k <= end <= v@.len(),
            out@ == v@.subrange(start as int, k as int),
        decreases end - k,
    {
        out.push(v[k]);
        assert(v@.subrange(start as int, k + 1) == v@.subrange(start as int, k as int).push(
            v@[k as int],
        ));
        k = k + 1;
    }
    assert(out@ == p.subrange(last_slash(p) + 1, p.len() as int));
    out
}

/// The process id encoded in a Lua server socket name
/// (`/tmp/wow-lua-<pid>.sock`), if the name has that form.
pub fn socket_pid(path: &str) -> (r: Option<i32>)
    ensures
        r == spec_socket_pid(path@),
{
    proof {
        reveal_strlit(".sock");
        reveal_strlit("wow-lua-");
    }
    let f = file_name_of(path);
    let n = f.len();
    if !starts_with_chars(f.as_slice(), "wow-lua-") || n < 13 {
        return None;
    }
    if !(f[n - 5] == '.' && f[n - 4] == 's' && f[n - 3] == 'o' && f[n - 2] == 'c' && f[n - 1]
        == 'k') {
        assert(f@.subrange(n - 5, n as int) != ".sock"@) by {
            if f@.subrange(n - 5, n as int) == ".sock"@ {
                assert(f@.subrange(n - 5, n as int)[0] == '.');
                assert(f@.subrange(n - 5, n as int)[1] == 's');
                assert(f@.subrange(n - 5, n as int)[2] == 'o');
                assert(f@.subrange(n - 5, n as int)[3] == 'c');
                assert(f@.subrange(n - 5, n as int)[4] == 'k');
            }
        }
        return None;
    }
    assert(f@.subrange(n - 5, n as int) == ".sock"@);
    let mut middle: Vec<char> = Vec::new();
    let mut k: usize = 8;
    while k < n - 5
        invariant
            8 <= k <= n - 5,
            n == f@.len(),
            middle@ == f@.subrange(8, k as int),
        decreases n - 5 - k,
    {
        middle.push(f[k]);
        assert(f@.subrange(8, k + 1) == f@.subrange(8, k as int).push(f@[k as int]));
        k = k + 1;
    }
    let s = crate::text::string_from_chars(middle.as_slice());
    parse_i32(s.as_str())
}

/// The socket a simulator with process id `pid` listens on.
pub open spec fn spec_socket_path(pid: u32) -> Seq<char> {
    "/tmp/wow-lua-"@ + decimal(pid as nat) + ".sock"@
}

/// The socket a simulator with process id `pid` listens on:
/// `/tmp/wow-lua-<pid>.sock`.
pub fn socket_path_for(pid: u32) -> (r: String)
    ensures
        r@ == spec_socket_path(pid),
{
    let mut v = chars_of("/tmp/wow-lua-");
    push_decimal(&mut v, pid as u64);
    push_str(&mut v, ".sock");
    string_from_chars(v.as_slice())
}

/// The process id read back from a simulator's socket name is the one it
/// was named after (for every id a process id can have as an `i32`).
pub proof fn lemma_socket_pid_round_trip(pid: u32)
    requires
        pid <= i32::MAX,
    ensures
        spec_socket_pid(spec_socket_path(pid)) == Some(pid as i32),
{
    reveal_strlit("/tmp/wow-lua-");
    reveal_strlit(".sock");
    reveal_strlit("wow-lua-");
    lemma_decimal_digits(pid as nat);
    let dec = decimal(pid as nat);
    let p = spec_socket_path(pid);
    let n = p.len();
    assert(n == 13 + dec.len() + 5);
    assert(p[4] == '/');
    assert(p[n - 1] == 'k');
    assert forall|k: int| 4 < k < n implies #[trigger] p[k] != '/' by {
        if k < 13 {
            assert(p[k] == "/tmp/wow-lua-"@[k]);
        } else if k < 13 + dec.len() {
            assert(p[k] == dec[k - 13]);
        } else {
            assert(p[k] == ".sock"@[k - 13 - dec.len()]);
        }
    }
    lemma_last_slash(p);
    assert(last_slash(p) == 4) by {
        if last_slash(p) < 4 {
            assert(p[4] != '/');
        }
    }
    assert(file_name(p) == p.subrange(5, n as int));
    let f = p.subrange(5, n as int);
    assert(f.subrange(0, 8) == "wow-lua-"@);
    assert(f.subrange(f.len() - 5, f.len() as int) == ".sock"@);
    assert(f.subrange(8, f.len() - 5) == dec);
    assert(dec[0] != '+' && dec[0] != '-');
}

} // verus!
