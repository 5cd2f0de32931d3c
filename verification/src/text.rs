//! Character-level helpers shared by the parsers and path utilities.

use vstd::prelude::*;

verus! {

/// ASCII lower-casing of one character; every other character is unchanged.
pub open spec fn lower_char(c: char) -> char {
    if 'A' <= c && c <= 'Z' {
        ((c as u32) + 32) as char
    } else {
        c
    }
}

/// ASCII upper-casing of one character; every other character is unchanged.
pub open spec fn upper_char(c: char) -> char {
    if 'a' <= c && c <= 'z' {
        ((c as u32) - 32) as char
    } else {
        c
    }
}

/// Two character sequences are equal up to ASCII case.
pub open spec fn eq_ic(a: Seq<char>, b: Seq<char>) -> bool {
    &&& a.len() == b.len()
    &&& forall|i: int| 0 <= i < a.len() ==> lower_char(#[trigger] a[i]) == lower_char(b[i])
}

/// The characters of a string slice, in order.
pub fn chars_of(s: &str) -> (v: Vec<char>)
    ensures
        v@ == s@,
{
    let n = s.unicode_len();
    let mut v: Vec<char> = Vec::new();
    let mut i: usize = 0;
    while i < n
        invariant
            n == s@.len(),
            i <= n,
            v@ == s@.subrange(0, i as int),
        decreases n - i,
    {
        let c = s.get_char(i);
        v.push(c);
        i = i + 1;
    }
    v
}

/// ASCII lower-casing of one character.
pub fn to_lower_char(c: char) -> (r: char)
    ensures
        r == lower_char(c),
{
    if 'A' <= c && c <= 'Z' {
        let b = (c as u8) + 32;
        b as char
    } else {
        c
    }
}


/// Appends one character to a `String` (std's `String::push`): the result is
/// the old content followed by `c`.
#[verifier::external_body]
pub(crate) fn push_char(s: &mut String, c: char)
    ensures
        final(s)@ == old(s)@.push(c),
{
    s.push(c);
}

/// A `String` holding exactly the given characters.
pub fn string_from_chars(v: &[char]) -> (s: String)
    ensures
        s@ == v@,
{
    let mut s = String::new();
    let mut i: usize = 0;
    while i < v.len()
        invariant
            i <= v@.len(),
            s@ == v@.subrange(0, i as int),
        decreases v@.len() - i,
    {
        push_char(&mut s, v[i]);
        assert(v@.subrange(0, i + 1) == v@.subrange(0, i as int).push(v@[i as int]));
        i = i + 1;
    }
    assert(v@.subrange(0, v@.len() as int) == v@);
    s
}

/// ASCII-case-insensitive comparison of two character slices.
pub fn chars_eq_ignore_ascii_case(a: &[char], b: &[char]) -> (r: bool)
    ensures
        r == eq_ic(a@, b@),
{
    if a.len() != b.len() {
        return false;
    }
    let mut i: usize = 0;
    while i < a.len()
        invariant
            a@.len() == b@.len(),
            i <= a@.len(),
            forall|j: int| 0 <= j < i ==> lower_char(#[trigger] a@[j]) == lower_char(b@[j]),
        decreases a@.len() - i,
    {
        if to_lower_char(a[i]) != to_lower_char(b[i]) {
            return false;
        }
        i = i + 1;
    }
    true
}

/// ASCII-case-insensitive comparison of two strings (std's `eq_ignore_ascii_case`).
pub fn eq_ignore_ascii_case(a: &str, b: &str) -> (r: bool)
    ensures
        r == eq_ic(a@, b@),
{
    let av = chars_of(a);
    let bv = chars_of(b);
    chars_eq_ignore_ascii_case(av.as_slice(), bv.as_slice())
}


/// Decimal digits of a natural number, most significant first.
pub open spec fn decimal(n: nat) -> Seq<char>
    decreases n,
{
    if n < 10 {
        seq![digit_char(n)]
    } else {
        decimal(n / 10) + seq![digit_char(n % 10)]
    }
}

/// The ASCII digit for a value below ten.
pub open spec fn digit_char(d: nat) -> char {
    (('0' as u32) + d) as char
}

/// Lower-case hexadecimal digit for a value below sixteen.
pub open spec fn hex_digit_char(d: nat) -> char {
    if d < 10 {
        (('0' as u32) + d) as char
    } else {
        (('a' as u32) + d - 10) as char
    }
}

/// The digit character of a value below ten.
pub fn digit_to_char(d: u64) -> (c: char)
    requires
        d < 10,
    ensures
        c == digit_char(d as nat),
{
    let b: u8 = 48u8 + (d as u8);
    b as char
}

/// The lower-case hexadecimal digit of a value below sixteen.
pub fn hex_digit_to_char(d: u64) -> (c: char)
    requires
        d < 16,
    ensures
        c == hex_digit_char(d as nat),
{
    if d < 10 {
        let b: u8 = 48u8 + (d as u8);
        b as char
    } else {
        let b: u8 = 87u8 + (d as u8);
        b as char
    }
}

/// Appends the decimal form of `n` to `out` (what `format!("{n}")` writes).
pub fn push_decimal(out: &mut Vec<char>, n: u64)
    ensures
        final(out)@ == old(out)@ + decimal(n as nat),
    decreases n,
{
    if n < 10 {
        out.push(digit_to_char(n));
    } else {
        push_decimal(out, n / 10);
        out.push(digit_to_char(n % 10));
        assert(final(out)@ == old(out)@ + decimal(n as nat));
    }
}

/// Appends a string slice's characters to a character vector.
pub fn push_str(out: &mut Vec<char>, s: &str)
    ensures
        final(out)@ == old(out)@ + s@,
{
    let v = chars_of(s);
    let mut i: usize = 0;
    while i < v.len()
        invariant
            i <= v@.len(),
            v@ == s@,
            out@ == old(out)@ + v@.subrange(0, i as int),
        decreases v@.len() - i,
    {
        out.push(v[i]);
        assert(v@.subrange(0, i + 1) == v@.subrange(0, i as int).push(v@[i as int]));
        i = i + 1;
    }
    assert(v@.subrange(0, v@.len() as int) == v@);
}

/// Exact equality of two strings' characters.
pub fn str_eq(a: &str, b: &str) -> (r: bool)
    ensures
        r == (a@ == b@),
{
    let av = chars_of(a);
    let bv = chars_of(b);
    if av.len() != bv.len() {
        return false;
    }
    let mut i: usize = 0;
    while i < av.len()
        invariant
            av@ == a@,
            bv@ == b@,
            av@.len() == bv@.len(),
            i <= av@.len(),
            forall|j: int| 0 <= j < i ==> av@[j] == bv@[j],
        decreases av@.len() - i,
    {
        if av[i] != bv[i] {
            return false;
        }
        i = i + 1;
    }
    assert(av@ == bv@);
    true
}

/// `s` with every `from` replaced by `to`.
pub open spec fn replace_char_seq(s: Seq<char>, from: char, to: char) -> Seq<char> {
    Seq::new(s.len(), |i: int| if s[i] == from { to } else { s[i] })
}

/// `s` with every `from` replaced by `to` (std's `str::replace` with two
/// characters).
pub fn replace_char(s: &str, from: char, to: char) -> (r: String)
    ensures
        r@ == replace_char_seq(s@, from, to),
{
    let v = chars_of(s);
    let mut out: Vec<char> = Vec::new();
    let mut i: usize = 0;
    while i < v.len()
        invariant
            v@ == s@,
            i <= v@.len(),
            out@ == replace_char_seq(s@, from, to).subrange(0, i as int),
        decreases v@.len() - i,
    {
        if v[i] == from {
            out.push(to);
        } else {
            out.push(v[i]);
        }
        assert(replace_char_seq(s@, from, to).subrange(0, i + 1) == replace_char_seq(
            s@,
            from,
            to,
        ).subrange(0, i as int).push(replace_char_seq(s@, from, to)[i as int]));
        i = i + 1;
    }
    assert(replace_char_seq(s@, from, to).subrange(0, v@.len() as int) == replace_char_seq(
        s@,
        from,
        to,
    ));
    string_from_chars(out.as_slice())
}

/// ASCII lower-casing of a whole sequence.
pub open spec fn lower_seq(s: Seq<char>) -> Seq<char> {
    Seq::new(s.len(), |i: int| lower_char(s[i]))
}

/// ASCII upper-casing of a whole sequence.
pub open spec fn upper_seq(s: Seq<char>) -> Seq<char> {
    Seq::new(s.len(), |i: int| upper_char(s[i]))
}

/// The ASCII lower-case form of a string (std's `to_ascii_lowercase`).
pub fn to_ascii_lowercase(s: &str) -> (r: Vec<char>)
    ensures
        r@ == lower_seq(s@),
{
    let v = chars_of(s);
    let mut out: Vec<char> = Vec::new();
    let mut i: usize = 0;
    while i < v.len()
        invariant
            v@ == s@,
            i <= v@.len(),
            out@ == lower_seq(s@).subrange(0, i as int),
        decreases v@.len() - i,
    {
        out.push(to_lower_char(v[i]));
        assert(lower_seq(s@).subrange(0, i + 1) == lower_seq(s@).subrange(0, i as int).push(
            lower_char(v@[i as int]),
        ));
        i = i + 1;
    }
    assert(lower_seq(s@).subrange(0, v@.len() as int) == lower_seq(s@));
    out
}

/// `p` is a prefix of `s`.
pub open spec fn has_prefix(s: Seq<char>, p: Seq<char>) -> bool {
    p.len() <= s.len() && s.subrange(0, p.len() as int) == p
}

/// Whether `p` is a prefix of `s`.
pub fn starts_with_chars(s: &[char], p: &str) -> (r: bool)
    ensures
        r == has_prefix(s@, p@),
{
    let pv = chars_of(p);
    if pv.len() > s.len() {
        return false;
    }
    let mut i: usize = 0;
    while i < pv.len()
        invariant
            pv@ == p@,
            pv@.len() <= s@.len(),
            i <= pv@.len(),
            forall|j: int| 0 <= j < i ==> s@[j] == pv@[j],
        decreases pv@.len() - i,
    {
        if s[i] != pv[i] {
            return false;
        }
        i = i + 1;
    }
    assert(s@.subrange(0, pv@.len() as int) == pv@);
    true
}

/// The last `width` lower-case hexadecimal digits of `n`, zero-padded
/// (what `format!("{n:016x}")` writes for a `u64` and a width of 16).
pub open spec fn hex_fixed(n: nat, width: nat) -> Seq<char>
    decreases width,
{
    if width == 0 {
        Seq::empty()
    } else {
        hex_fixed(n / 16, (width - 1) as nat) + seq![hex_digit_char(n % 16)]
    }
}

/// Appends the last `width` hexadecimal digits of `n`, zero-padded.
pub fn push_hex_fixed(out: &mut Vec<char>, n: u64, width: u64)
    ensures
        final(out)@ == old(out)@ + hex_fixed(n as nat, width as nat),
    decreases width,
{
    if width > 0 {
        push_hex_fixed(out, n / 16, width - 1);
        out.push(hex_digit_to_char(n % 16));
    }
}

/// First index at which `pat` occurs in `s`, or `-1`.
pub open spec fn find_from(s: Seq<char>, pat: Seq<char>, i: int) -> int
    decreases s.len() - i,
{
    if i < 0 || i + pat.len() > s.len() {
        -1
    } else if s.subrange(i, i + pat.len()) == pat {
        i
    } else if i >= s.len() {
        -1
    } else {
        find_from(s, pat, i + 1)
    }
}

pub proof fn lemma_find_from(s: Seq<char>, pat: Seq<char>, i: int)
    requires
        0 <= i,
    ensures
        find_from(s, pat, i) == -1 || (i <= find_from(s, pat, i) && find_from(s, pat, i)
            + pat.len() <= s.len()),
    decreases s.len() - i,
{
    if i + pat.len() <= s.len() && s.subrange(i, i + pat.len()) != pat && i < s.len() {
        lemma_find_from(s, pat, i + 1);
    }
}

/// The first occurrence of `pat` in `s`, if any.
pub fn find_chars(s: &Vec<char>, pat: &Vec<char>) -> (r: Option<usize>)
    ensures
        match r {
            Some(i) => i as int == find_from(s@, pat@, 0),
            None => find_from(s@, pat@, 0) == -1,
        },
{
    let n = s.len();
    let m = pat.len();
    if m > n {
        return None;
    }
    let mut i: usize = 0;
    while i <= n - m
        invariant
            n == s@.len(),
            m == pat@.len(),
            m <= n,
            i <= n - m + 1,
            find_from(s@, pat@, 0) == find_from(s@, pat@, i as int),
        decreases n - i,
    {
        let mut k: usize = 0;
        let mut same = true;
        while k < m
            invariant
                n == s@.len(),
                m == pat@.len(),
                i + m <= n,
                k <= m,
                same ==> forall|q: int| 0 <= q < k ==> s@[i + q] == pat@[q],
                !same ==> s@.subrange(i as int, i + m) != pat@,
            decreases m - k,
        {
            if same && s[i + k] != pat[k] {
                same = false;
                assert(s@.subrange(i as int, i + m)[k as int] != pat@[k as int]);
            }
            k = k + 1;
        }
        if same {
            assert(s@.subrange(i as int, i + m) == pat@);
            return Some(i);
        }
        if i == n {
            assert(m == 0);
            assert(s@.subrange(i as int, i + m) == pat@);
        }
        i = i + 1;
    }
    None
}

/// Every character is an ASCII digit.
pub open spec fn all_digits(s: Seq<char>) -> bool {
    forall|i: int| 0 <= i < s.len() ==> '0' <= #[trigger] s[i] && s[i] <= '9'
}

/// The value of a run of ASCII digits.
pub open spec fn digits_value(s: Seq<char>) -> nat
    decreases s.len(),
{
    if s.len() == 0 {
        0
    } else {
        digits_value(s.drop_last()) * 10 + ((s.last() as u32 - '0' as u32) as nat)
    }
}

/// What std's `u64::from_str` gives: an optional `+` and at least one digit,
/// whose value fits.
pub open spec fn spec_parse_u64(s: Seq<char>) -> Option<u64> {
    let d = if s.len() > 0 && s[0] == '+' {
        s.drop_first()
    } else {
        s
    };
    if d.len() == 0 || !all_digits(d) || digits_value(d) > u64::MAX {
        None
    } else {
        Some(digits_value(d) as u64)
    }
}

/// What std's `i32::from_str` gives: an optional sign and at least one
/// digit, whose signed value fits.
pub open spec fn spec_parse_i32(s: Seq<char>) -> Option<i32> {
    let neg = s.len() > 0 && s[0] == '-';
    let d = if s.len() > 0 && (s[0] == '+' || s[0] == '-') {
        s.drop_first()
    } else {
        s
    };
    if d.len() == 0 || !all_digits(d) {
        None
    } else if neg {
        if digits_value(d) > 2147483648 {
            None
        } else {
            Some((0 - digits_value(d)) as i32)
        }
    } else if digits_value(d) > 2147483647 {
        None
    } else {
        Some(digits_value(d) as i32)
    }
}

pub proof fn lemma_digits_value_step(s: Seq<char>, i: int)
    requires
        0 <= i < s.len(),
    ensures
        digits_value(s.subrange(0, i + 1)) == digits_value(s.subrange(0, i)) * 10 + ((s[i] as u32
            - '0' as u32) as nat),
{
    assert(s.subrange(0, i + 1).drop_last() == s.subrange(0, i));
}

/// The value of the digits `d[start..]`, or `None` when a character is not a
/// digit, there is none, or the value exceeds `limit`.
fn digits_upto(d: &Vec<char>, start: usize, limit: u64) -> (r: Option<u64>)
    requires
        start <= d@.len(),
    ensures
        ({
            let t = d@.subrange(start as int, d@.len() as int);
            match r {
                Some(v) => t.len() > 0 && all_digits(t) && digits_value(t) <= limit && v
                    == digits_value(t),
                None => t.len() == 0 || !all_digits(t) || digits_value(t) > limit,
            }
        }),
{
    let n = d.len();
    let ghost t = d@.subrange(start as int, n as int);
    if start == n {
        return None;
    }
    let mut value: u64 = 0;
    let mut over = false;
    let mut i = start;
    while i < n
        invariant
            n == d@.len(),
            start <= i <= n,
            t == d@.subrange(start as int, n as int),
            all_digits(d@.subrange(start as int, i as int)),
            !over ==> value == digits_value(d@.subrange(start as int, i as int)) && value <= limit,
            over ==> digits_value(d@.subrange(start as int, i as int)) > limit,
        decreases n - i,
    {
        let c = d[i];
        if !('0' <= c && c <= '9') {
            assert(t[i - start] == c);
            return None;
        }
        let dv = (c as u32 - '0' as u32) as u64;
        proof {
            lemma_digits_value_step(d@.subrange(start as int, n as int), i - start);
            assert(d@.subrange(start as int, n as int).subrange(0, i - start + 1) == d@.subrange(
                start as int,
                i + 1,
            ));
            assert(d@.subrange(start as int, n as int).subrange(0, i - start) == d@.subrange(
                start as int,
                i as int,
            ));
        }
        if !over {
            if dv > limit || value > (limit - dv) / 10 {
                over = true;
                assert(digits_value(d@.subrange(start as int, i + 1)) > limit) by (nonlinear_arith)
                    requires
                        digits_value(d@.subrange(start as int, i + 1)) == value * 10 + dv,
                        value > (limit - dv) / 10 || dv > limit,
                        dv <= 9,
                ;
            } else {
                assert(value * 10 + dv <= limit) by (nonlinear_arith)
                    requires
                        value <= (limit - dv) / 10,
                        dv <= limit,
                ;
                value = value * 10 + dv;
            }
        } else {
            assert(digits_value(d@.subrange(start as int, i + 1)) > limit) by (nonlinear_arith)
                requires
                    digits_value(d@.subrange(start as int, i + 1)) == digits_value(
                        d@.subrange(start as int, i as int),
                    ) * 10 + dv,
                    digits_value(d@.subrange(start as int, i as int)) > limit,
            ;
        }
        assert(all_digits(d@.subrange(start as int, i + 1)));
        i = i + 1;
    }
    if over {
        None
    } else {
        Some(value)
    }
}

/// Parses an unsigned decimal the way std's `u64::from_str` does.
pub fn parse_u64(s: &str) -> (r: Option<u64>)
    ensures
        r == spec_parse_u64(s@),
{
    let d = chars_of(s);
    let start: usize = if d.len() > 0 && d[0] == '+' {
        1
    } else {
        0
    };
    assert(d@.subrange(start as int, d@.len() as int) == (if s@.len() > 0 && s@[0] == '+' {
        s@.drop_first()
    } else {
        s@
    }));
    digits_upto(&d, start, u64::MAX)
}

/// Parses a signed decimal the way std's `i32::from_str` does.
pub fn parse_i32(s: &str) -> (r: Option<i32>)
    ensures
        r == spec_parse_i32(s@),
{
    let d = chars_of(s);
    let neg = d.len() > 0 && d[0] == '-';
    let start: usize = if d.len() > 0 && (d[0] == '+' || d[0] == '-') {
        1
    } else {
        0
    };
    assert(d@.subrange(start as int, d@.len() as int) == (if s@.len() > 0 && (s@[0] == '+'
        || s@[0] == '-') {
        s@.drop_first()
    } else {
        s@
    }));
    if neg {
        match digits_upto(&d, start, 2147483648) {
            Some(v) => {
                if v == 2147483648 {
                    Some(-2147483648i32)
                } else {
                    Some(-(v as i32))
                }
            },
            None => None,
        }
    } else {
        match digits_upto(&d, start, 2147483647) {
            Some(v) => Some(v as i32),
            None => None,
        }
    }
}

/// The decimal form of a number is a non-empty run of digits whose value is
/// the number.
pub proof fn lemma_decimal_digits(n: nat)
    ensures
        decimal(n).len() >= 1,
        all_digits(decimal(n)),
        digits_value(decimal(n)) == n,
    decreases n,
{
    let d = decimal(n);
    if n < 10 {
        assert(d.last() == digit_char(n));
        assert((digit_char(n) as u32) == 48 + n);
        assert(d.drop_last() =~= Seq::<char>::empty());
        assert(digits_value(d) == digits_value(d.drop_last()) * 10 + ((d.last() as u32 - '0' as u32) as nat));
    } else {
        lemma_decimal_digits(n / 10);
        assert(d.drop_last() == decimal(n / 10));
        assert(d.last() == digit_char(n % 10));
        assert((digit_char(n % 10) as u32) == 48 + n % 10);
        assert forall|i: int| 0 <= i < d.len() implies '0' <= #[trigger] d[i] && d[i] <= '9' by {
            if i < d.len() - 1 {
                assert(d[i] == decimal(n / 10)[i]);
            }
        }
    }
}

/// Parsing reads back what `push_decimal` writes: the decimal form of a
/// `u64` parses to it, the decimal form of a number up to `i32::MAX` parses
/// to it as an `i32`, and a `-` before the decimal form of a number up to
/// 2147483648 parses to its negation.
pub proof fn lemma_parse_reads_back_decimal(n: u64, m: nat)
    requires
        m <= 2147483648,
    ensures
        spec_parse_u64(decimal(n as nat)) == Some(n),
        n <= i32::MAX ==> spec_parse_i32(decimal(n as nat)) == Some(n as i32),
        spec_parse_i32(seq!['-'] + decimal(m)) == Some((0 - m) as i32),
{
    lemma_decimal_digits(n as nat);
    lemma_decimal_digits(m);
    let d = decimal(n as nat);
    assert('0' <= d[0] && d[0] <= '9');
    let e = seq!['-'] + decimal(m);
    assert(e[0] == '-');
    assert(e.drop_first() == decimal(m));
}

} // verus!
