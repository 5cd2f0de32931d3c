//! WoW's `string.format` dialect, planned ahead of the underlying Lua 5.1
//! `string.format`.
//!
//! Real WoW ships two extensions: `%F` (rewritten to `%f`) and positional
//! arguments (`%1$s`, `%2$d`, ...), which may be mixed with sequential
//! specifiers. `%s`/`%q` coerce numbers to strings, and numeric conversions
//! receive `0` in place of `nil`. The planner works on the format's bytes
//! and on the Lua type of each argument; it yields the rewritten format and,
//! for each argument handed on, where that argument comes from.

use vstd::prelude::*;
use crate::text::{decimal, push_decimal, push_str, string_from_chars};
use vstd::string::StringSliceAdditionalSpecFns;
use vstd::string::StringExecFns;
use vstd::utf8::encode_utf8;

verus! {

/// The Lua type of a `string.format` argument.
#[derive(Debug, Clone, Copy, PartialEq, Eq, Structural)]
pub enum ArgKind {
    Nil,
    Boolean,
    Number,
    Str,
    Table,
    Function,
    Userdata,
    Thread,
}

/// Where one argument handed to the underlying `string.format` comes from.
#[derive(Debug, Clone, Copy, PartialEq, Eq, Structural)]
pub enum PlannedArg {
    /// The caller's argument at this 0-based index (after the format), as is.
    Arg(usize),
    /// No argument was given at that position: `nil` is passed.
    Missing,
    /// The string `"nil"` (a missing or `nil` `%s` argument under positional formatting).
    NilText,
    /// The caller's number at this 0-based index, rendered as a string.
    NumberText(usize),
    /// The number `0`, standing in for `nil` at a numeric conversion.
    Zero,
}

/// Why a format was rejected.
#[derive(Debug, Clone, Copy, PartialEq, Eq, Structural)]
pub enum FormatError {
    /// A positional index of 100 or more.
    PositionTooLarge,
    /// A `%s`/`%q` argument that is not a string or number; `argument` is the
    /// 1-based Lua argument number (the format string being argument 1), and
    /// `got` is `None` when no value was passed at all.
    StringExpected { argument: usize, got: Option<ArgKind> },
}

/// A planned call of the underlying `string.format`.
#[derive(Debug)]
pub struct FormatPlan {
    /// The format handed on, with `%F` rewritten and positions removed.
    pub format: String,
    /// The arguments handed on after the format, in order.
    pub args: Vec<PlannedArg>,
    /// Whether the format or the argument order was rewritten.
    pub rewritten: bool,
}

/// Lua's name for a type.
pub open spec fn spec_lua_type_name(k: ArgKind) -> Seq<char> {
    match k {
        ArgKind::Nil => "nil"@,
        ArgKind::Boolean => "boolean"@,
        ArgKind::Number => "number"@,
        ArgKind::Str => "string"@,
        ArgKind::Table => "table"@,
        ArgKind::Function => "function"@,
        ArgKind::Userdata => "userdata"@,
        ArgKind::Thread => "thread"@,
    }
}

/// The error message Lua reports for a rejected format.
pub open spec fn spec_error_message(e: FormatError) -> Seq<char> {
    match e {
        FormatError::PositionTooLarge => "invalid format (width or precision too long)"@,
        FormatError::StringExpected { argument, got } => "bad argument #"@ + decimal(
            argument as nat,
        ) + " to '?' (string expected, got "@ + (match got {
            Some(k) => spec_lua_type_name(k),
            None => "no value"@,
        }) + ")"@,
    }
}

impl ArgKind {
    /// Lua's name for this type.
    pub fn lua_type_name(&self) -> (r: &'static str)
        ensures
            r@ == spec_lua_type_name(*self),
    {
        match self {
            ArgKind::Nil => "nil",
            ArgKind::Boolean => "boolean",
            ArgKind::Number => "number",
            ArgKind::Str => "string",
            ArgKind::Table => "table",
            ArgKind::Function => "function",
            ArgKind::Userdata => "userdata",
            ArgKind::Thread => "thread",
        }
    }
}

impl FormatError {
    /// The message the Lua error carries.
    pub fn message(&self) -> (r: String)
        ensures
            r@ == spec_error_message(*self),
    {
        match self {
            FormatError::PositionTooLarge => {
                let mut out: Vec<char> = Vec::new();
                push_str(&mut out, "invalid format (width or precision too long)");
                string_from_chars(out.as_slice())
            },
            FormatError::StringExpected { argument, got } => {
                let mut out: Vec<char> = Vec::new();
                push_str(&mut out, "bad argument #");
                push_decimal(&mut out, *argument as u64);
                push_str(&mut out, " to '?' (string expected, got ");
                match got {
                    Some(k) => push_str(&mut out, k.lua_type_name()),
                    None => push_str(&mut out, "no value"),
                }
                push_str(&mut out, ")");
                string_from_chars(out.as_slice())
            },
        }
    }
}

// ---------------------------------------------------------------------------
// Lexical pieces of a specifier
// ---------------------------------------------------------------------------

pub open spec fn is_digit(b: u8) -> bool {
    48 <= b <= 57
}

pub open spec fn is_flag(b: u8) -> bool {
    b == 45 || b == 43 || b == 32 || b == 35 || b == 48
}

/// The printf conversion letters the dialect accepts (`%F` included).
pub open spec fn spec_is_format_conversion(b: u8) -> bool {
    b == 100 || b == 105 || b == 111 || b == 117 || b == 120 || b == 88 || b == 101 || b == 69
        || b == 102 || b == 70 || b == 103 || b == 71 || b == 97 || b == 65 || b == 99 || b
        == 115 || b == 112 || b == 113 || b == 110
}

pub open spec fn skip_flags(s: Seq<u8>, i: int) -> int
    decreases s.len() - i,
{
    if 0 <= i < s.len() && is_flag(s[i]) {
        skip_flags(s, i + 1)
    } else {
        i
    }
}

pub open spec fn skip_digits(s: Seq<u8>, i: int) -> int
    decreases s.len() - i,
{
    if 0 <= i < s.len() && is_digit(s[i]) {
        skip_digits(s, i + 1)
    } else {
        i
    }
}

/// Position after the flags, width and precision that start at `i`.
pub open spec fn skip_fwp(s: Seq<u8>, i: int) -> int {
    let a = skip_flags(s, i);
    let b = skip_digits(s, a);
    if 0 <= b < s.len() && s[b] == 46 {
        skip_digits(s, b + 1)
    } else {
        b
    }
}

pub proof fn lemma_skip_flags(s: Seq<u8>, i: int)
    requires
        0 <= i <= s.len(),
    ensures
        i <= skip_flags(s, i) <= s.len(),
    decreases s.len() - i,
{
    if i < s.len() && is_flag(s[i]) {
        lemma_skip_flags(s, i + 1);
    }
}

pub proof fn lemma_skip_digits(s: Seq<u8>, i: int)
    requires
        0 <= i <= s.len(),
    ensures
        i <= skip_digits(s, i) <= s.len(),
        forall|k: int| i <= k < skip_digits(s, i) ==> is_digit(#[trigger] s[k]),
    decreases s.len() - i,
{
    if i < s.len() && is_digit(s[i]) {
        lemma_skip_digits(s, i + 1);
    }
}

pub proof fn lemma_skip_fwp(s: Seq<u8>, i: int)
    requires
        0 <= i <= s.len(),
    ensures
        i <= skip_fwp(s, i) <= s.len(),
{
    lemma_skip_flags(s, i);
    lemma_skip_digits(s, skip_flags(s, i));
    let b = skip_digits(s, skip_flags(s, i));
    if b < s.len() && s[b] == 46 {
        lemma_skip_digits(s, b + 1);
    }
}

/// Value of the decimal digits `s[a..b]`.
pub open spec fn digits_value(s: Seq<u8>, a: int, b: int) -> nat
    decreases b - a,
{
    if b <= a {
        0
    } else {
        digits_value(s, a, b - 1) * 10 + ((s[b - 1] - 48) as nat)
    }
}

pub proof fn lemma_digits_value_monotone(s: Seq<u8>, a: int, b: int, c: int)
    requires
        a <= b <= c,
        forall|k: int| a <= k < c ==> is_digit(#[trigger] s[k]),
    ensures
        digits_value(s, a, b) <= digits_value(s, a, c),
    decreases c - b,
{
    if b < c {
        lemma_digits_value_monotone(s, a, b, c - 1);
    }
}

/// A positional index `N$` at `i`: its value and the position after `$`.
/// Digits whose value overflows `usize` do not form a positional index.
pub open spec fn spec_positional(s: Seq<u8>, i: int) -> Option<(nat, int)> {
    let e = skip_digits(s, i);
    if e == i || e >= s.len() || s[e] != 36 {
        None
    } else if digits_value(s, i, e) > usize::MAX {
        None
    } else {
        Some((digits_value(s, i, e), e + 1))
    }
}

/// The bytes of a format as the characters the rewritten format holds
/// (each byte becomes the character with that code).
pub open spec fn byte_chars(s: Seq<u8>) -> Seq<char> {
    Seq::new(s.len(), |k: int| s[k] as char)
}

/// Valid printf conversion characters; `%F` is accepted and rewritten to `%f`.
pub fn is_format_conversion(b: u8) -> (r: bool)
    ensures
        r == spec_is_format_conversion(b),
{
    b == 100 || b == 105 || b == 111 || b == 117 || b == 120 || b == 88 || b == 101 || b
        == 69 || b == 102 || b == 70 || b == 103 || b == 71 || b == 97 || b == 65 || b
        == 99 || b == 115 || b == 112 || b == 113 || b == 110
}

/// Skips flags (`-+ #0`), width digits and precision (`.N`) from `start`,
/// appending them to `out`; returns the position after them.
pub fn skip_flags_width_precision(bytes: &[u8], start: usize, out: &mut Vec<char>) -> (next: usize)
    requires
        start <= bytes@.len(),
    ensures
        next == skip_fwp(bytes@, start as int),
        start <= next <= bytes@.len(),
        final(out)@ == old(out)@ + byte_chars(bytes@.subrange(start as int, next as int)),
{
    proof {
        lemma_skip_fwp(bytes@, start as int);
    }
    let len = bytes.len();
    let mut i = start;
    while i < len && (bytes[i] == 45 || bytes[i] == 43 || bytes[i] == 32 || bytes[i] == 35
        || bytes[i] == 48)
        invariant
            len == bytes@.len(),
            start <= i <= len,
            skip_flags(bytes@, i as int) == skip_flags(bytes@, start as int),
            out@ == old(out)@ + byte_chars(bytes@.subrange(start as int, i as int)),
        decreases len - i,
    {
        out.push(bytes[i] as char);
        assert(byte_chars(bytes@.subrange(start as int, i + 1)) == byte_chars(
            bytes@.subrange(start as int, i as int),
        ).push(bytes@[i as int] as char));
        i = i + 1;
    }
    let a = i;
    while i < len && bytes[i] >= 48 && bytes[i] <= 57
        invariant
            len == bytes@.len(),
            a <= i <= len,
            a == skip_flags(bytes@, start as int),
            start <= a,
            skip_digits(bytes@, i as int) == skip_digits(bytes@, a as int),
            out@ == old(out)@ + byte_chars(bytes@.subrange(start as int, i as int)),
        decreases len - i,
    {
        out.push(bytes[i] as char);
        assert(byte_chars(bytes@.subrange(start as int, i + 1)) == byte_chars(
            bytes@.subrange(start as int, i as int),
        ).push(bytes@[i as int] as char));
        i = i + 1;
    }
    if i < len && bytes[i] == 46 {
        out.push('.');
        assert(byte_chars(bytes@.subrange(start as int, i + 1)) == byte_chars(
            bytes@.subrange(start as int, i as int),
        ).push(bytes@[i as int] as char));
        i = i + 1;
        let b = i;
        while i < len && bytes[i] >= 48 && bytes[i] <= 57
            invariant
                len == bytes@.len(),
                b <= i <= len,
                start < b,
                skip_digits(bytes@, i as int) == skip_digits(bytes@, b as int),
                out@ == old(out)@ + byte_chars(bytes@.subrange(start as int, i as int)),
            decreases len - i,
        {
            out.push(bytes[i] as char);
            assert(byte_chars(bytes@.subrange(start as int, i + 1)) == byte_chars(
                bytes@.subrange(start as int, i as int),
            ).push(bytes@[i as int] as char));
            i = i + 1;
        }
    }
    i
}

/// Parses `N$` (digits followed by `$`) at `start`: returns `N` and the
/// position after `$`, or `None`.
pub fn parse_positional_index(bytes: &[u8], start: usize) -> (r: Option<(usize, usize)>)
    requires
        start <= bytes@.len(),
    ensures
        match spec_positional(bytes@, start as int) {
            Some((n, after)) => r == Some((n as usize, after as usize)),
            None => r is None,
        },
{
    proof {
        lemma_skip_digits(bytes@, start as int);
    }
    let len = bytes.len();
    let mut i = start;
    let mut value: usize = 0;
    let mut overflow = false;
    while i < len && bytes[i] >= 48 && bytes[i] <= 57
        invariant
            len == bytes@.len(),
            start <= i <= len,
            skip_digits(bytes@, i as int) == skip_digits(bytes@, start as int),
            forall|k: int| start <= k < i ==> is_digit(#[trigger] bytes@[k]),
            !overflow ==> value == digits_value(bytes@, start as int, i as int),
            overflow ==> digits_value(bytes@, start as int, i as int) > usize::MAX,
        decreases len - i,
    {
        let d = (bytes[i] - 48) as usize;
        if !overflow {
            if value > (usize::MAX - d) / 10 {
                overflow = true;
            } else {
                value = value * 10 + d;
            }
        } else {
            proof {
                lemma_digits_value_monotone(bytes@, start as int, i as int, i + 1);
            }
        }
        i = i + 1;
    }
    if i == start || i >= len || bytes[i] != 36 {
        return None;
    }
    if overflow {
        return None;
    }
    Some((value, i + 1))
}

// ---------------------------------------------------------------------------
// Numeric argument positions
// ---------------------------------------------------------------------------

pub open spec fn is_numeric_flag(b: u8) -> bool {
    b == 45 || b == 43 || b == 32 || b == 35 || b == 46 || is_digit(b)
}

pub open spec fn is_numeric_conversion(b: u8) -> bool {
    b == 99 || b == 100 || b == 105 || b == 117 || b == 111 || b == 120 || b == 88 || b == 102
        || b == 101 || b == 69 || b == 103 || b == 71
}

pub open spec fn skip_numeric_flags(s: Seq<u8>, j: int) -> int
    decreases s.len() - j,
{
    if 0 <= j < s.len() && is_numeric_flag(s[j]) {
        skip_numeric_flags(s, j + 1)
    } else {
        j
    }
}

pub proof fn lemma_skip_numeric_flags(s: Seq<u8>, j: int)
    requires
        0 <= j <= s.len(),
    ensures
        j <= skip_numeric_flags(s, j) <= s.len(),
    decreases s.len() - j,
{
    if j < s.len() && is_numeric_flag(s[j]) {
        lemma_skip_numeric_flags(s, j + 1);
    }
}

/// The 1-based argument positions (the format being position 0) that a
/// numeric conversion consumes, counting specifiers from `i` on, the next
/// one taking position `ai`.
pub open spec fn numeric_indices_from(s: Seq<u8>, i: int, ai: int) -> Seq<int>
    decreases s.len() - i,
{
    if i < 0 || i >= s.len() {
        Seq::empty()
    } else if s[i] != 37 {
        numeric_indices_from(s, i + 1, ai)
    } else if i + 1 < s.len() && s[i + 1] == 37 {
        numeric_indices_from(s, i + 2, ai)
    } else {
        let j = skip_numeric_flags(s, i + 1);
        if j >= s.len() || j <= i {
            Seq::empty()
        } else {
            (if is_numeric_conversion(s[j]) {
                seq![ai]
            } else {
                Seq::empty()
            }) + numeric_indices_from(s, j + 1, ai + 1)
        }
    }
}

pub open spec fn spec_numeric_indices(s: Seq<u8>) -> Seq<int> {
    numeric_indices_from(s, 0, 1)
}

/// Positions (counting the format itself as position 0) of the arguments
/// consumed by numeric conversions, in the order of the format's specifiers.
pub fn numeric_format_arg_indices(fmt: &str) -> (v: Vec<usize>)
    ensures
        v@.len() == spec_numeric_indices(fmt.spec_bytes()).len(),
        forall|k: int|
            0 <= k < v@.len() ==> v@[k] as int == #[trigger] spec_numeric_indices(
                fmt.spec_bytes(),
            )[k],
{
    let bytes = fmt.as_bytes();
    let len = bytes.len();
    let mut indices: Vec<usize> = Vec::new();
    let ghost mut found: Seq<int> = Seq::empty();
    let mut arg_index: usize = 1;
    let mut i: usize = 0;
    while i < len
        invariant
            len == bytes@.len(),
            bytes@ == fmt.spec_bytes(),
            i <= len,
            1 <= arg_index <= i + 1,
            found + numeric_indices_from(bytes@, i as int, arg_index as int)
                == spec_numeric_indices(bytes@),
            indices@.len() == found.len(),
            forall|k: int| 0 <= k < found.len() ==> indices@[k] as int == #[trigger] found[k],
        ensures
            found == spec_numeric_indices(bytes@),
            indices@.len() == found.len(),
            forall|k: int| 0 <= k < found.len() ==> indices@[k] as int == #[trigger] found[k],
        decreases len - i,
    {
        if bytes[i] != 37 {
            i = i + 1;
            if i >= len {
                assert(found + Seq::<int>::empty() == found);
            }
            continue;
        }
        if i + 1 < len && bytes[i + 1] == 37 {
            i = i + 2;
            if i >= len {
                assert(found + Seq::<int>::empty() == found);
            }
            continue;
        }
        proof {
            lemma_skip_numeric_flags(bytes@, i + 1);
        }
        let mut j = i + 1;
        while j < len && (bytes[j] == 45 || bytes[j] == 43 || bytes[j] == 32 || bytes[j]
            == 35 || bytes[j] == 46 || (bytes[j] >= 48 && bytes[j] <= 57))
            invariant
                len == bytes@.len(),
                i + 1 <= j <= len,
                skip_numeric_flags(bytes@, j as int) == skip_numeric_flags(bytes@, i + 1),
            decreases len - j,
        {
            j = j + 1;
        }
        if j >= len {
            assert(numeric_indices_from(bytes@, i as int, arg_index as int) == Seq::<int>::empty());
            assert(found + Seq::<int>::empty() == found);
            break;
        }
        let ghost tail = numeric_indices_from(bytes@, j + 1, arg_index + 1);
        let b = bytes[j];
        if b == 99 || b == 100 || b == 105 || b == 117 || b == 111 || b == 120 || b == 88
            || b == 102 || b == 101 || b == 69 || b == 103 || b == 71 {
            assert(numeric_indices_from(bytes@, i as int, arg_index as int) == seq![
                arg_index as int,
            ] + tail);
            assert(found + (seq![arg_index as int] + tail) == found.push(arg_index as int)
                + tail);
            indices.push(arg_index);
            proof {
                found = found.push(arg_index as int);
            }
        } else {
            assert(numeric_indices_from(bytes@, i as int, arg_index as int) == Seq::<int>::empty()
                + tail);
        }
        arg_index = arg_index + 1;
        i = j + 1;
        if i >= len {
            assert(found + Seq::<int>::empty() == found);
        }
    }
    indices
}

// ---------------------------------------------------------------------------
// The rewrite walk
// ---------------------------------------------------------------------------

/// The state of the rewrite walk over a format.
pub struct Walk {
    pub out: Seq<char>,
    pub planned: Seq<PlannedArg>,
    pub seq: nat,
    pub positional: bool,
    pub modified: bool,
}

/// Index of the caller's argument that a 1-based argument number names
/// (`%0$` reads the first argument, as `saturating_sub(1)` does).
pub open spec fn arg_slot(arg_index: nat) -> nat {
    if arg_index == 0 {
        0
    } else {
        (arg_index - 1) as nat
    }
}

/// One specifier starting at the `%` at `i`: the walk state after it and the
/// position that follows, or the error it raises.
pub open spec fn spec_specifier(s: Seq<u8>, kinds: Seq<ArgKind>, i: int, w: Walk) -> Result<
    (Walk, int),
    FormatError,
> {
    let pos = spec_positional(s, i + 1);
    let too_large = match pos {
        Some((n, _)) => n >= 100,
        None => false,
    };
    if too_large {
        Err(FormatError::PositionTooLarge)
    } else {
        let positional = w.positional || pos is Some;
        let seq: nat = match pos {
            Some((n, _)) => if w.seq >= n {
                w.seq
            } else {
                n
            },
            None => w.seq + 1,
        };
        let arg_index: nat = match pos {
            Some((n, _)) => n,
            None => w.seq + 1,
        };
        let j = match pos {
            Some((_, after)) => after,
            None => i + 1,
        };
        let slot = arg_slot(arg_index);
        let value: Option<ArgKind> = if slot < kinds.len() {
            Some(kinds[slot as int])
        } else {
            None
        };
        let k = skip_fwp(s, j);
        let out1 = w.out.push('%') + byte_chars(s.subrange(j, k));
        let default_arg = if slot < kinds.len() {
            PlannedArg::Arg(slot as usize)
        } else {
            PlannedArg::Missing
        };
        if k < s.len() && spec_is_format_conversion(s[k]) {
            let conv = s[k];
            let is_string = conv == 115 || conv == 113;
            let coerced: Result<(PlannedArg, bool), FormatError> = if !is_string {
                Ok((default_arg, false))
            } else {
                match value {
                    None => if positional {
                        Ok((PlannedArg::NilText, true))
                    } else {
                        Err(
                            FormatError::StringExpected {
                                argument: (arg_index + 1) as usize,
                                got: None,
                            },
                        )
                    },
                    Some(ArgKind::Nil) => if positional {
                        Ok((PlannedArg::NilText, true))
                    } else {
                        Err(
                            FormatError::StringExpected {
                                argument: (arg_index + 1) as usize,
                                got: Some(ArgKind::Nil),
                            },
                        )
                    },
                    Some(ArgKind::Number) => Ok((PlannedArg::NumberText(slot as usize), true)),
                    Some(ArgKind::Str) => Ok((default_arg, false)),
                    Some(other) => Err(
                        FormatError::StringExpected {
                            argument: (arg_index + 1) as usize,
                            got: Some(other),
                        },
                    ),
                }
            };
            match coerced {
                Err(e) => Err(e),
                Ok((planned_arg, coerce_modified)) => {
                    let out2 = out1.push(
                        if conv == 70 {
                            'f'
                        } else {
                            conv as char
                        },
                    );
                    Ok(
                        (
                            Walk {
                                out: out2,
                                planned: w.planned.push(planned_arg),
                                seq,
                                positional,
                                modified: w.modified || coerce_modified || conv == 70,
                            },
                            k + 1,
                        ),
                    )
                },
            }
        } else {
            Ok(
                (
                    Walk {
                        out: out1,
                        planned: w.planned.push(default_arg),
                        seq,
                        positional,
                        modified: w.modified,
                    },
                    k,
                ),
            )
        }
    }
}

/// The walk from position `i` to the end of the format.
pub open spec fn spec_walk(s: Seq<u8>, kinds: Seq<ArgKind>, i: int, w: Walk) -> Result<
    Walk,
    FormatError,
>
    decreases s.len() - i,
{
    if i < 0 || i >= s.len() {
        Ok(w)
    } else if s[i] != 37 {
        spec_walk(s, kinds, i + 1, Walk { out: w.out.push(s[i] as char), ..w })
    } else if i + 1 < s.len() && s[i + 1] == 37 {
        spec_walk(s, kinds, i + 2, Walk { out: w.out.push('%').push('%'), ..w })
    } else {
        match spec_specifier(s, kinds, i, w) {
            Err(e) => Err(e),
            Ok((w2, next)) => if i < next <= s.len() {
                spec_walk(s, kinds, next, w2)
            } else {
                Ok(w2)
            },
        }
    }
}

/// Every argument handed on unchanged.
pub open spec fn identity_plan(n: nat) -> Seq<PlannedArg> {
    Seq::new(n, |k: int| PlannedArg::Arg(k as usize))
}

/// Result of the rewrite walk: the rewritten format, the arguments in
/// delegation order and whether anything was rewritten. When nothing was
/// (no positional index, no `%F`, no coercion), the caller's arguments are
/// handed on as they are.
pub open spec fn spec_process(s: Seq<u8>, kinds: Seq<ArgKind>) -> Result<
    (Seq<char>, Seq<PlannedArg>, bool),
    FormatError,
> {
    match spec_walk(
        s,
        kinds,
        0,
        Walk { out: Seq::empty(), planned: Seq::empty(), seq: 0, positional: false, modified: false },
    ) {
        Err(e) => Err(e),
        Ok(w) => if w.positional || w.modified {
            Ok((w.out, w.planned, true))
        } else {
            Ok((w.out, identity_plan(kinds.len()), false))
        },
    }
}

pub proof fn lemma_specifier_advances(s: Seq<u8>, kinds: Seq<ArgKind>, i: int, w: Walk)
    requires
        0 <= i < s.len(),
        s[i] == 37,
    ensures
        spec_specifier(s, kinds, i, w) matches Ok((w2, next)) ==> i < next <= s.len(),
{
    lemma_skip_digits(s, i + 1);
    let pos = spec_positional(s, i + 1);
    let j = match pos {
        Some((_, after)) => after,
        None => i + 1,
    };
    lemma_skip_fwp(s, j);
}

/// Parses one format specifier starting at the `%` at `start`, appending its
/// rewritten form to `out` and its argument to `reordered`; returns the
/// position after the specifier.
#[verifier::rlimit(40)]
fn parse_format_specifier(
    bytes: &[u8],
    start: usize,
    args: &[ArgKind],
    out: &mut Vec<char>,
    reordered: &mut Vec<PlannedArg>,
    seq: &mut usize,
    has_positional: &mut bool,
    modified: &mut bool,
) -> (r: Result<usize, FormatError>)
    requires
        start < bytes@.len(),
        bytes@.len() + 100 <= usize::MAX,
        bytes@[start as int] == 37,
        *old(seq) <= start + 99,
    ensures
        match spec_specifier(
            bytes@,
            args@,
            start as int,
            Walk {
                out: old(out)@,
                planned: old(reordered)@,
                seq: *old(seq) as nat,
                positional: *old(has_positional),
                modified: *old(modified),
            },
        ) {
            Err(e) => r == Err::<usize, FormatError>(e),
            Ok((w, next)) => r == Ok::<usize, FormatError>(next as usize) && final(out)@ == w.out
                && final(reordered)@ == w.planned && *final(seq) as nat == w.seq
                && *final(has_positional) == w.positional && *final(modified) == w.modified
                && *final(seq) <= next + 99,
        },
{
    proof {
        lemma_specifier_advances(
            bytes@,
            args@,
            start as int,
            Walk {
                out: out@,
                planned: reordered@,
                seq: *seq as nat,
                positional: *has_positional,
                modified: *modified,
            },
        );
        lemma_skip_digits(bytes@, start + 1);
    }
    let len = bytes.len();
    let mut i = start + 1;
    let arg_index: usize;
    match parse_positional_index(bytes, i) {
        Some((n, after)) => {
            if n >= 100 {
                return Err(FormatError::PositionTooLarge);
            }
            *has_positional = true;
            if *seq < n {
                *seq = n;
            }
            arg_index = n;
            out.push('%');
            i = after;
        },
        None => {
            *seq = *seq + 1;
            arg_index = *seq;
            out.push('%');
        },
    }
    let slot = if arg_index == 0 {
        0
    } else {
        arg_index - 1
    };
    let value: Option<ArgKind> = if slot < args.len() {
        Some(args[slot])
    } else {
        None
    };
    let mut planned = if slot < args.len() {
        PlannedArg::Arg(slot)
    } else {
        PlannedArg::Missing
    };
    i = skip_flags_width_precision(bytes, i, out);
    if i < bytes.len() && is_format_conversion(bytes[i]) {
        let conv = bytes[i];
        if conv == 115 || conv == 113 {
            match value {
                None => {
                    if *has_positional {
                        planned = PlannedArg::NilText;
                        *modified = true;
                    } else {
                        return Err(
                            FormatError::StringExpected { argument: arg_index + 1, got: None },
                        );
                    }
                },
                Some(ArgKind::Nil) => {
                    if *has_positional {
                        planned = PlannedArg::NilText;
                        *modified = true;
                    } else {
                        return Err(
                            FormatError::StringExpected {
                                argument: arg_index + 1,
                                got: Some(ArgKind::Nil),
                            },
                        );
                    }
                },
                Some(ArgKind::Number) => {
                    planned = PlannedArg::NumberText(slot);
                    *modified = true;
                },
                Some(ArgKind::Str) => {},
                Some(other) => {
                    return Err(
                        FormatError::StringExpected { argument: arg_index + 1, got: Some(other) },
                    );
                },
            }
        }
        if conv == 70 {
            out.push('f');
            *modified = true;
        } else {
            out.push(conv as char);
        }
        i = i + 1;
    }
    reordered.push(planned);
    Ok(i)
}

/// Rewrites a WoW-dialect format: `%F` becomes `%f`, positional specifiers
/// lose their `N$` and take the argument they name, `%s`/`%q` coerce numbers
/// (and, under positional formatting, `nil`) to strings. Returns the
/// rewritten format, the arguments in delegation order, and whether
/// anything changed; when nothing changed the caller's arguments are kept.
pub fn process_wow_format(fmt: &str, args: &[ArgKind]) -> (r: Result<
    (String, Vec<PlannedArg>, bool),
    FormatError,
>)
    requires
        fmt.spec_bytes().len() + 100 <= usize::MAX,
    ensures
        match spec_process(fmt.spec_bytes(), args@) {
            Err(e) => r == Err::<(String, Vec<PlannedArg>, bool), FormatError>(e),
            Ok((f, p, m)) => r is Ok && r->Ok_0.0@ == f && r->Ok_0.1@ == p && r->Ok_0.2 == m,
        },
{
    let bytes = fmt.as_bytes();
    let len = bytes.len();
    let mut out: Vec<char> = Vec::new();
    let mut reordered: Vec<PlannedArg> = Vec::new();
    let mut seq: usize = 0;
    let mut has_positional = false;
    let mut modified = false;
    let mut i: usize = 0;
    let ghost w0 = Walk {
        out: Seq::empty(),
        planned: Seq::empty(),
        seq: 0,
        positional: false,
        modified: false,
    };
    while i < len
        invariant
            len == bytes@.len(),
            bytes@ == fmt.spec_bytes(),
            i <= len,
            len + 100 <= usize::MAX,
            seq <= i + 99,
            w0 == (Walk {
                out: Seq::empty(),
                planned: Seq::empty(),
                seq: 0,
                positional: false,
                modified: false,
            }),
            spec_walk(bytes@, args@, 0, w0) == spec_walk(
                bytes@,
                args@,
                i as int,
                Walk {
                    out: out@,
                    planned: reordered@,
                    seq: seq as nat,
                    positional: has_positional,
                    modified,
                },
            ),
        decreases len - i,
    {
        if bytes[i] != 37 {
            out.push(bytes[i] as char);
            i = i + 1;
        } else if i + 1 < len && bytes[i + 1] == 37 {
            out.push('%');
            out.push('%');
            i = i + 2;
        } else {
            let ghost before = Walk {
                out: out@,
                planned: reordered@,
                seq: seq as nat,
                positional: has_positional,
                modified,
            };
            match parse_format_specifier(
                bytes,
                i,
                args,
                &mut out,
                &mut reordered,
                &mut seq,
                &mut has_positional,
                &mut modified,
            ) {
                Err(e) => {
                    assert(spec_walk(bytes@, args@, i as int, before) == Err::<Walk, FormatError>(
                        e,
                    ));
                    assert(spec_walk(bytes@, args@, 0, w0) == Err::<Walk, FormatError>(e));
                    assert(spec_process(fmt.spec_bytes(), args@) == Err::<
                        (Seq<char>, Seq<PlannedArg>, bool),
                        FormatError,
                    >(e));
                    return Err(e);
                },
                Ok(next) => {
                    proof {
                        lemma_specifier_advances(bytes@, args@, i as int, before);
                    }
                    i = next;
                },
            }
        }
    }
    let format = string_from_chars(out.as_slice());
    if has_positional || modified {
        Ok((format, reordered, true))
    } else {
        let mut identity: Vec<PlannedArg> = Vec::new();
        let mut k: usize = 0;
        while k < args.len()
            invariant
                k <= args@.len(),
                identity@ == identity_plan(args@.len()).subrange(0, k as int),
            decreases args@.len() - k,
        {
            identity.push(PlannedArg::Arg(k));
            assert(identity_plan(args@.len()).subrange(0, k + 1) == identity_plan(
                args@.len(),
            ).subrange(0, k as int).push(PlannedArg::Arg(k)));
            k = k + 1;
        }
        assert(identity_plan(args@.len()).subrange(0, args@.len() as int) == identity_plan(
            args@.len(),
        ));
        Ok((format, identity, false))
    }
}

// ---------------------------------------------------------------------------
// nil at numeric conversions, and the whole plan
// ---------------------------------------------------------------------------

/// Whether a planned argument hands `nil` on.
pub open spec fn passes_nil(p: PlannedArg, kinds: Seq<ArgKind>) -> bool {
    match p {
        PlannedArg::Arg(k) => k < kinds.len() && kinds[k as int] == ArgKind::Nil,
        PlannedArg::Missing => true,
        _ => false,
    }
}

/// The arguments handed on after `nil` at a numeric conversion became `0`;
/// the argument at 0-based index `m` sits at position `m + 1` (the format
/// being position 0).
pub open spec fn spec_zero_nil_numeric(
    indices: Seq<int>,
    planned: Seq<PlannedArg>,
    kinds: Seq<ArgKind>,
) -> Seq<PlannedArg> {
    Seq::new(
        planned.len(),
        |m: int|
            if passes_nil(planned[m], kinds) && indices.contains(m + 1) {
                PlannedArg::Zero
            } else {
                planned[m]
            },
    )
}

/// Replaces `nil` by `0` wherever a numeric conversion of `fmt` consumes it.
pub fn normalize_nil_numeric_args(fmt: &str, planned: Vec<PlannedArg>, kinds: &[ArgKind]) -> (r: Vec<
    PlannedArg,
>)
    ensures
        r@ == spec_zero_nil_numeric(spec_numeric_indices(fmt.spec_bytes()), planned@, kinds@),
{
    let indices = numeric_format_arg_indices(fmt);
    let ghost ind = spec_numeric_indices(fmt.spec_bytes());
    let mut out = planned;
    let mut t: usize = 0;
    while t < indices.len()
        invariant
            t <= indices@.len(),
            indices@.len() == ind.len(),
            forall|k: int| 0 <= k < ind.len() ==> indices@[k] as int == #[trigger] ind[k],
            out@.len() == planned@.len(),
            forall|m: int|
                0 <= m < planned@.len() ==> #[trigger] out@[m] == (if passes_nil(planned@[m], kinds@)
                    && ind.subrange(0, t as int).contains(m + 1) {
                    PlannedArg::Zero
                } else {
                    planned@[m]
                }),
        decreases indices@.len() - t,
    {
        let index = indices[t];
        let ghost before = out@;
        if index >= 1 && index - 1 < out.len() {
            let slot = index - 1;
            let nil = match planned_ref(&out, slot) {
                PlannedArg::Arg(k) => k < kinds.len() && kinds[k] == ArgKind::Nil,
                PlannedArg::Missing => true,
                _ => false,
            };
            if nil {
                out.set(slot, PlannedArg::Zero);
            }
        }
        proof {
            assert forall|m: int| 0 <= m < planned@.len() implies #[trigger] out@[m] == (if passes_nil(
                planned@[m],
                kinds@,
            ) && ind.subrange(0, t + 1).contains(m + 1) {
                PlannedArg::Zero
            } else {
                planned@[m]
            }) by {
                assert(ind.subrange(0, t + 1) == ind.subrange(0, t as int).push(ind[t as int]));
                vstd::seq_lib::lemma_seq_contains_after_push(
                    ind.subrange(0, t as int),
                    ind[t as int],
                    m + 1,
                );
            }
        }
        t = t + 1;
    }
    assert(ind.subrange(0, ind.len() as int) == ind);
    assert(out@ == spec_zero_nil_numeric(ind, planned@, kinds@));
    out
}

/// The planned argument at `i`.
fn planned_ref(v: &Vec<PlannedArg>, i: usize) -> (r: PlannedArg)
    requires
        i < v@.len(),
    ensures
        r == v@[i as int],
{
    v[i]
}

/// Plans a call of WoW's `string.format` whose first argument is the string
/// `fmt` and whose further arguments have the Lua types `args`: the format
/// and arguments the underlying Lua 5.1 `string.format` receives, or the
/// error raised. Unless something was rewritten, the format and the
/// arguments are handed on as they came; either way `nil` at a numeric
/// conversion becomes `0`.
pub fn plan_wow_string_format(fmt: &str, args: &[ArgKind]) -> (r: Result<FormatPlan, FormatError>)
    requires
        fmt.spec_bytes().len() + 100 <= usize::MAX,
    ensures
        match spec_process(fmt.spec_bytes(), args@) {
            Err(e) => r == Err::<FormatPlan, FormatError>(e),
            Ok((f, p, m)) => r is Ok && r->Ok_0.rewritten == m && r->Ok_0.format@ == (if m {
                f
            } else {
                fmt@
            }) && r->Ok_0.args@ == spec_zero_nil_numeric(
                spec_numeric_indices(
                    if m {
                        encode_utf8(f)
                    } else {
                        fmt.spec_bytes()
                    },
                ),
                p,
                args@,
            ),
        },
{
    match process_wow_format(fmt, args) {
        Err(e) => Err(e),
        Ok((new_fmt, planned, rewritten)) => {
            if rewritten {
                let normalized = normalize_nil_numeric_args(new_fmt.as_str(), planned, args);
                Ok(FormatPlan { format: new_fmt, args: normalized, rewritten: true })
            } else {
                let normalized = normalize_nil_numeric_args(fmt, planned, args);
                Ok(FormatPlan { format: String::from_str(fmt), args: normalized, rewritten: false })
            }
        },
    }
}

/// Every position that the numeric conversions counted from `i` on consume
/// is at least `ai`.
proof fn lemma_numeric_indices_from_at_least(s: Seq<u8>, i: int, ai: int)
    ensures
        forall|k: int|
            0 <= k < numeric_indices_from(s, i, ai).len() ==> #[trigger] numeric_indices_from(
                s,
                i,
                ai,
            )[k] >= ai,
    decreases s.len() - i,
{
    if 0 <= i < s.len() {
        if s[i] != 37 {
            lemma_numeric_indices_from_at_least(s, i + 1, ai);
            assert(numeric_indices_from(s, i, ai) == numeric_indices_from(s, i + 1, ai));
        } else if i + 1 < s.len() && s[i + 1] == 37 {
            lemma_numeric_indices_from_at_least(s, i + 2, ai);
            assert(numeric_indices_from(s, i, ai) == numeric_indices_from(s, i + 2, ai));
        } else {
            let j = skip_numeric_flags(s, i + 1);
            if j < s.len() && j > i {
                lemma_numeric_indices_from_at_least(s, j + 1, ai + 1);
                let head: Seq<int> = if is_numeric_conversion(s[j]) {
                    seq![ai]
                } else {
                    Seq::empty()
                };
                let rest = numeric_indices_from(s, j + 1, ai + 1);
                assert(numeric_indices_from(s, i, ai) == head + rest);
                assert forall|k: int| 0 <= k < (head + rest).len() implies #[trigger] (head
                    + rest)[k] >= ai by {
                    if k >= head.len() {
                        assert((head + rest)[k] == rest[k - head.len()]);
                    }
                }
            }
        }
    }
}

/// The conversion letters `c d i u o x X f e E g G` consume a number.
pub open spec fn is_numeric_letter(b: u8) -> bool {
    b == 'c' as u8 || b == 'd' as u8 || b == 'i' as u8 || b == 'u' as u8 || b == 'o' as u8 || b
        == 'x' as u8 || b == 'X' as u8 || b == 'f' as u8 || b == 'e' as u8 || b == 'E' as u8 || b
        == 'g' as u8 || b == 'G' as u8
}

/// A format that opens with `%` and a conversion letter: the first argument
/// after the format (position 1) is numeric exactly when the letter is one
/// of `c d i u o x X f e E g G`. Any other letter that is neither a flag, a
/// digit, a `.` nor `%` leaves position 1 out.
pub proof fn lemma_leading_conversion_decides_first_numeric(b: u8, t: Seq<u8>)
    requires
        'A' as u8 <= b <= 'Z' as u8 || 'a' as u8 <= b <= 'z' as u8,
    ensures
        is_numeric_letter(b) ==> spec_numeric_indices(seq![37u8, b] + t).len() >= 1
            && spec_numeric_indices(seq![37u8, b] + t)[0] == 1,
        !is_numeric_letter(b) ==> !spec_numeric_indices(seq![37u8, b] + t).contains(1),
{
    let s = seq![37u8, b] + t;
    assert(s[0] == 37u8);
    assert(s[1] == b);
    assert(skip_numeric_flags(s, 1) == 1);
    lemma_numeric_indices_from_at_least(s, 2, 2);
    if !is_numeric_letter(b) {
        assert(spec_numeric_indices(s) == numeric_indices_from(s, 2, 2));
    }
}

/// `nil` handed to a leading numeric conversion is planned as `0`: when the
/// format opens with `%` and one of `c d i u o x X f e E g G`, a first
/// argument that is `nil` (or missing) becomes `Zero`.
pub proof fn lemma_nil_at_leading_numeric_becomes_zero(
    b: u8,
    t: Seq<u8>,
    planned: Seq<PlannedArg>,
    kinds: Seq<ArgKind>,
)
    requires
        is_numeric_letter(b),
        planned.len() >= 1,
        planned[0] == PlannedArg::Missing || (planned[0] matches PlannedArg::Arg(k) && k
            < kinds.len() && kinds[k as int] == ArgKind::Nil),
    ensures
        spec_zero_nil_numeric(spec_numeric_indices(seq![37u8, b] + t), planned, kinds)[0]
            == PlannedArg::Zero,
{
    lemma_leading_conversion_decides_first_numeric(b, t);
    let ind = spec_numeric_indices(seq![37u8, b] + t);
    assert(ind[0] == 1);
    assert(ind.contains(1int));
}

/// `skip_numeric_flags` reads only the text from where it starts.
proof fn lemma_skip_numeric_flags_shift(p: Seq<u8>, t: Seq<u8>, k: int)
    requires
        0 <= k,
    ensures
        skip_numeric_flags(p + t, p.len() + k) == p.len() + skip_numeric_flags(t, k),
    decreases t.len() - k,
{
    if k < t.len() {
        assert((p + t)[p.len() + k] == t[k]);
        if is_numeric_flag(t[k]) {
            lemma_skip_numeric_flags_shift(p, t, k + 1);
        }
    }
}

/// What the numeric positions from a byte on are depends only on the text
/// from there.
proof fn lemma_numeric_indices_shift(p: Seq<u8>, t: Seq<u8>, i: int, ai: int)
    requires
        0 <= i,
    ensures
        numeric_indices_from(p + t, p.len() + i, ai) == numeric_indices_from(t, i, ai),
    decreases t.len() - i,
{
    let u = p + t;
    let n = p.len() as int;
    if i < t.len() {
        assert(u[n + i] == t[i]);
        if i + 1 < t.len() {
            assert(u[n + i + 1] == t[i + 1]);
        }
        if t[i] != 37 {
            lemma_numeric_indices_shift(p, t, i + 1, ai);
        } else if i + 1 < t.len() && t[i + 1] == 37 {
            lemma_numeric_indices_shift(p, t, i + 2, ai);
        } else {
            lemma_skip_numeric_flags_shift(p, t, i + 1);
            lemma_skip_numeric_flags(t, i + 1);
            let j = skip_numeric_flags(t, i + 1);
            if j < t.len() && j > i {
                assert(u[n + j] == t[j]);
                lemma_numeric_indices_shift(p, t, j + 1, ai + 1);
            }
        }
    }
}

/// Counting positions from `ai + d` in place of `ai` moves each by `d`.
proof fn lemma_numeric_indices_offset(t: Seq<u8>, i: int, ai: int, d: int)
    ensures
        numeric_indices_from(t, i, ai + d) == numeric_indices_from(t, i, ai).map_values(
            |v: int| v + d,
        ),
    decreases t.len() - i,
{
    if 0 <= i < t.len() {
        if t[i] != 37 {
            lemma_numeric_indices_offset(t, i + 1, ai, d);
        } else if i + 1 < t.len() && t[i + 1] == 37 {
            lemma_numeric_indices_offset(t, i + 2, ai, d);
        } else {
            let j = skip_numeric_flags(t, i + 1);
            if j < t.len() && j > i {
                lemma_numeric_indices_offset(t, j + 1, ai + 1, d);
                let head: Seq<int> = if is_numeric_conversion(t[j]) {
                    seq![ai]
                } else {
                    Seq::empty()
                };
                let rest = numeric_indices_from(t, j + 1, ai + 1);
                assert((head + rest).map_values(|v: int| v + d) =~= head.map_values(|v: int| v + d)
                    + rest.map_values(|v: int| v + d));
                assert(numeric_indices_from(t, j + 1, ai + 1 + d) == numeric_indices_from(
                    t,
                    j + 1,
                    ai + d + 1,
                ));
            }
        }
    } else {
        assert(Seq::<int>::empty().map_values(|v: int| v + d) =~= Seq::<int>::empty());
    }
}

/// The bytes of a specifier's flags, width and precision: `- + space # .`
/// and the digits.
pub open spec fn is_width_flag_byte(b: u8) -> bool {
    b == '-' as u8 || b == '+' as u8 || b == ' ' as u8 || b == '#' as u8 || b == '.' as u8 || (
    '0' as u8 <= b <= '9' as u8)
}

proof fn lemma_skip_given_flags(s: Seq<u8>, f: Seq<u8>, b: u8, k: int)
    requires
        0 <= k <= f.len(),
        s.len() > f.len() + 1,
        forall|q: int| 0 <= q < f.len() ==> s[1 + q] == f[q] && is_width_flag_byte(#[trigger] f[q]),
        s[f.len() as int + 1] == b,
        !is_width_flag_byte(b),
    ensures
        skip_numeric_flags(s, 1 + k) == f.len() + 1,
    decreases f.len() - k,
{
    if k < f.len() {
        assert(is_width_flag_byte(f[k]));
        lemma_skip_given_flags(s, f, b, k + 1);
    }
}

/// Each specifier takes the next argument position, whatever flags, width
/// and precision it has: a format opening with `%`, flags `f` and a
/// conversion letter `b` gives position 1 to a numeric argument exactly when
/// `b` is one of `c d i u o x X f e E g G`, and the rest of the format counts
/// its positions from 2. A `%%` takes no position, and neither does a byte
/// other than `%`.
pub proof fn lemma_each_specifier_takes_one_position(f: Seq<u8>, b: u8, c: u8, t: Seq<u8>)
    requires
        forall|q: int| 0 <= q < f.len() ==> is_width_flag_byte(#[trigger] f[q]),
        'A' as u8 <= b <= 'Z' as u8 || 'a' as u8 <= b <= 'z' as u8,
        c != 37,
    ensures
        spec_numeric_indices(seq![37u8] + f + seq![b] + t) == (if is_numeric_letter(b) {
            seq![1int]
        } else {
            Seq::<int>::empty()
        }) + spec_numeric_indices(t).map_values(|v: int| v + 1),
        spec_numeric_indices(seq![37u8, 37u8] + t) == spec_numeric_indices(t),
        spec_numeric_indices(seq![c] + t) == spec_numeric_indices(t),
{
    let p = seq![37u8] + f + seq![b];
    let s = p + t;
    assert(seq![37u8] + f + seq![b] + t == s);
    assert forall|q: int| 0 <= q < f.len() implies s[1 + q] == f[q] && is_width_flag_byte(
        #[trigger] f[q],
    ) by {
        assert(s[1 + q] == p[1 + q]);
    }
    assert(s[f.len() as int + 1] == b);
    assert(s[0] == 37u8);
    if f.len() > 0 {
        assert(s[1] == f[0]);
        assert(is_width_flag_byte(f[0]));
    }
    lemma_skip_given_flags(s, f, b, 0);
    let j = 1 + f.len();
    lemma_numeric_indices_shift(p, t, 0, 2);
    assert(p.len() == j + 1);
    lemma_numeric_indices_offset(t, 0, 1, 1);
    let pp = seq![37u8, 37u8];
    assert((pp + t)[0] == 37u8 && (pp + t)[1] == 37u8);
    lemma_numeric_indices_shift(pp, t, 0, 1);
    let one = seq![c];
    assert((one + t)[0] == c);
    lemma_numeric_indices_shift(one, t, 0, 1);
}

proof fn lemma_walk_plain(s: Seq<u8>, kinds: Seq<ArgKind>, i: int, w: Walk)
    requires
        0 <= i <= s.len(),
        forall|j: int| i <= j < s.len() ==> s[j] != 37,
    ensures
        spec_walk(s, kinds, i, w) == Ok::<Walk, FormatError>(
            Walk { out: w.out + byte_chars(s.subrange(i, s.len() as int)), ..w },
        ),
    decreases s.len() - i,
{
    if i < s.len() {
        lemma_walk_plain(s, kinds, i + 1, Walk { out: w.out.push(s[i] as char), ..w });
        assert(w.out.push(s[i] as char) + byte_chars(s.subrange(i + 1, s.len() as int)) == w.out
            + byte_chars(s.subrange(i, s.len() as int)));
    } else {
        assert(w.out + byte_chars(s.subrange(i, s.len() as int)) == w.out);
    }
}

/// A format without `%` is handed on unchanged, with the caller's arguments
/// as they are.
pub proof fn lemma_plain_format_passes_through(s: Seq<u8>, kinds: Seq<ArgKind>)
    requires
        forall|j: int| 0 <= j < s.len() ==> s[j] != 37,
    ensures
        spec_process(s, kinds) == Ok::<(Seq<char>, Seq<PlannedArg>, bool), FormatError>(
            (byte_chars(s), identity_plan(kinds.len()), false),
        ),
{
    let w0 = Walk { out: Seq::empty(), planned: Seq::empty(), seq: 0, positional: false, modified: false };
    lemma_walk_plain(s, kinds, 0, w0);
    assert(Seq::<char>::empty() + byte_chars(s.subrange(0, s.len() as int)) == byte_chars(s));
}

} // verus!
