//! Removal of WoW inline markup (`|T..|t`, `|A..|a`, `|H..|h`, `|c`, `|r`,
//! `|h`, `|n`) from chat and tooltip text.

use vstd::prelude::*;
use crate::text::{chars_of, string_from_chars};

verus! {

/// The closing letter of a delimited escape opened by `c`.
pub open spec fn close_marker(c: char) -> char {
    if c == 'T' {
        't'
    } else if c == 'A' {
        'a'
    } else {
        'h'
    }
}

/// Position just past the first `|m` at or after `k`, or the end of `s`
/// when no such pair follows.
pub open spec fn find_close(s: Seq<char>, m: char, k: int) -> int
    decreases s.len() - k,
{
    if k >= s.len() {
        s.len() as int
    } else if s[k] == '|' && k + 1 < s.len() && s[k + 1] == m {
        k + 2
    } else {
        find_close(s, m, k + 1)
    }
}

/// `find_close` never moves backwards and never leaves the text.
pub proof fn lemma_find_close_bounds(s: Seq<char>, m: char, k: int)
    requires
        0 <= k <= s.len(),
    ensures
        k <= find_close(s, m, k) <= s.len(),
    decreases s.len() - k,
{
    if k < s.len() && !(s[k] == '|' && k + 1 < s.len() && s[k + 1] == m) {
        lemma_find_close_bounds(s, m, k + 1);
    }
}

/// The characters `strip_wow_markup` keeps from position `i` on.
pub open spec fn strip_from(s: Seq<char>, i: int) -> Seq<char>
    decreases s.len() - i,
{
    if i < 0 || i >= s.len() {
        Seq::empty()
    } else if s[i] == '|' && i + 1 < s.len() {
        let c = s[i + 1];
        if c == 'T' || c == 'A' || c == 'H' {
            let j = find_close(s, close_marker(c), i + 2);
            if i < j <= s.len() {
                strip_from(s, j)
            } else {
                Seq::empty()
            }
        } else if c == 'h' || c == 'r' {
            strip_from(s, i + 2)
        } else if c == 'n' {
            seq!['\n'] + strip_from(s, i + 2)
        } else if c == 'c' {
            if i + 10 <= s.len() {
                strip_from(s, i + 10)
            } else {
                Seq::empty()
            }
        } else {
            seq!['|'] + strip_from(s, i + 1)
        }
    } else {
        seq![s[i]] + strip_from(s, i + 1)
    }
}

/// The plain text a player sees of a marked-up string.
pub open spec fn spec_strip_wow_markup(s: Seq<char>) -> Seq<char> {
    strip_from(s, 0)
}

/// Skips a delimited span whose opening letter stands at `pos`: returns the
/// position just past the closing `|` + `end_marker`, or the end of the text.
fn skip_delimited_span(chars: &[char], pos: usize, end_marker: char) -> (next: usize)
    requires
        pos < chars@.len(),
    ensures
        next == find_close(chars@, end_marker, pos + 1),
{
    let len = chars.len();
    let mut k: usize = pos + 1;
    while k < len
        invariant
            len == chars@.len(),
            pos + 1 <= k <= chars@.len(),
            find_close(chars@, end_marker, k as int) == find_close(chars@, end_marker, pos + 1),
        decreases chars@.len() - k,
    {
        if chars[k] == '|' && k + 1 < len && chars[k + 1] == end_marker {
            return k + 2;
        }
        k = k + 1;
    }
    k
}

/// Tries to consume the escape whose letter stands at `pos` (just after a
/// `|`). Returns the position after the escape, or `None` when the letter
/// starts no escape; a `|n` escape appends a newline to `result`.
fn consume_escape(chars: &[char], pos: usize, result: &mut Vec<char>) -> (next: Option<usize>)
    requires
        1 <= pos <= chars@.len(),
        chars@[pos - 1] == '|',
    ensures
        pos == chars@.len() ==> next is None && final(result)@ == old(result)@,
        pos < chars@.len() ==> ({
            let c = chars@[pos as int];
            let i = pos - 1;
            if c == 'T' || c == 'A' || c == 'H' {
                next == Some(find_close(chars@, close_marker(c), i + 2) as usize)
                    && final(result)@ == old(result)@
            } else if c == 'h' || c == 'r' {
                next == Some((i + 2) as usize) && final(result)@ == old(result)@
            } else if c == 'n' {
                next == Some((i + 2) as usize) && final(result)@ == old(result)@.push('\n')
            } else if c == 'c' {
                next == Some((if i + 10 <= chars@.len() { i + 10 } else { chars@.len() as int }) as usize)
                    && final(result)@ == old(result)@
            } else {
                next is None && final(result)@ == old(result)@
            }
        }),
{
    if pos >= chars.len() {
        return None;
    }
    let next = chars[pos];
    if next == 'T' || next == 'A' {
        let marker = if next == 'T' { 't' } else { 'a' };
        Some(skip_delimited_span(chars, pos, marker))
    } else if next == 'H' {
        Some(skip_delimited_span(chars, pos, 'h'))
    } else if next == 'h' || next == 'r' {
        Some(pos + 1)
    } else if next == 'n' {
        result.push('\n');
        Some(pos + 1)
    } else if next == 'c' {
        let mut k: usize = pos + 1;
        let mut skipped: usize = 0;
        while skipped < 8 && k < chars.len()
            invariant
                pos + 1 <= k <= chars@.len(),
                k == pos + 1 + skipped,
                skipped <= 8,
            decreases 8 - skipped,
        {
            k = k + 1;
            skipped = skipped + 1;
        }
        Some(k)
    } else {
        None
    }
}

/// Strip WoW markup from text: textures (`|T...|t`), atlases (`|A...|a`),
/// colors (`|cXXXXXXXX`/`|r`), hyperlinks (`|H...|h`/`|h`) and turns `|n`
/// into a newline. Plain text visible to the player is preserved.
pub fn strip_wow_markup(text: &str) -> (r: String)
    ensures
        r@ == spec_strip_wow_markup(text@),
{
    let chars = chars_of(text);
    let n = chars.len();
    let mut result: Vec<char> = Vec::new();
    let mut i: usize = 0;
    while i < n
        invariant
            n == chars@.len(),
            i <= n,
            result@ + strip_from(chars@, i as int) == spec_strip_wow_markup(chars@),
        decreases n - i,
    {
        let c = chars[i];
        if c == '|' {
            let ghost before = result@;
            match consume_escape(chars.as_slice(), i + 1, &mut result) {
                Some(next) => {
                    proof {
                        let s = chars@;
                        let e = s[i + 1];
                        if e == 'T' || e == 'A' || e == 'H' {
                            lemma_find_close_bounds(s, close_marker(e), i + 2);
                        }
                        if e == 'n' {
                            assert(result@ + strip_from(s, next as int)
                                == before + (seq!['\n'] + strip_from(s, next as int)));
                        }
                    }
                    i = next;
                    continue;
                }
                None => {
                    proof {
                        let s = chars@;
                        if i + 1 < n {
                            assert(before + strip_from(s, i as int)
                                == before.push('|') + strip_from(s, i + 1));
                        } else {
                            assert(before + strip_from(s, i as int)
                                == before.push('|') + strip_from(s, i + 1));
                        }
                    }
                }
            }
        }
        proof {
            let s = chars@;
            assert(result@ + strip_from(s, i as int) == result@.push(c) + strip_from(s, i + 1));
        }
        result.push(c);
        i = i + 1;
    }
    string_from_chars(result.as_slice())
}

/// Text without `|` is returned unchanged: markup stripping preserves plain text.
pub proof fn lemma_plain_text_unchanged(s: Seq<char>, i: int)
    requires
        0 <= i <= s.len(),
        forall|k: int| 0 <= k < s.len() ==> s[k] != '|',
    ensures
        strip_from(s, i) == s.subrange(i, s.len() as int),
    decreases s.len() - i,
{
    if i < s.len() {
        lemma_plain_text_unchanged(s, i + 1);
        assert(seq![s[i]] + s.subrange(i + 1, s.len() as int) == s.subrange(i, s.len() as int));
    }
}

/// Stripping never lengthens the text.
pub proof fn lemma_strip_no_longer(s: Seq<char>, i: int)
    requires
        0 <= i <= s.len(),
    ensures
        strip_from(s, i).len() <= s.len() - i,
    decreases s.len() - i,
{
    if i < s.len() {
        if s[i] == '|' && i + 1 < s.len() {
            let c = s[i + 1];
            if c == 'T' || c == 'A' || c == 'H' {
                lemma_find_close_bounds(s, close_marker(c), i + 2);
                lemma_strip_no_longer(s, find_close(s, close_marker(c), i + 2));
            } else if c == 'h' || c == 'r' || c == 'n' {
                lemma_strip_no_longer(s, i + 2);
            } else if c == 'c' {
                if i + 10 <= s.len() {
                    lemma_strip_no_longer(s, i + 10);
                }
            } else {
                lemma_strip_no_longer(s, i + 1);
            }
        } else {
            lemma_strip_no_longer(s, i + 1);
        }
    }
}


/// `find_close` reads only the text from where it starts.
proof fn lemma_find_close_shift(p: Seq<char>, t: Seq<char>, m: char, k: int)
    requires
        0 <= k,
    ensures
        find_close(p + t, m, p.len() + k) == p.len() + find_close(t, m, k),
    decreases t.len() - k,
{
    let u = p + t;
    if k < t.len() {
        assert(u[p.len() + k] == t[k]);
        if k + 1 < t.len() {
            assert(u[p.len() + k + 1] == t[k + 1]);
        }
        if !(t[k] == '|' && k + 1 < t.len() && t[k + 1] == m) {
            lemma_find_close_shift(p, t, m, k + 1);
        }
    }
}

/// What stripping keeps from a position depends only on the text from there.
proof fn lemma_strip_shift(p: Seq<char>, t: Seq<char>, i: int)
    requires
        0 <= i,
    ensures
        strip_from(p + t, p.len() + i) == strip_from(t, i),
    decreases t.len() - i,
{
    let u = p + t;
    let n = p.len() as int;
    if i < t.len() {
        assert(u[n + i] == t[i]);
        if i + 1 < t.len() {
            assert(u[n + i + 1] == t[i + 1]);
        }
        if t[i] == '|' && i + 1 < t.len() {
            let c = t[i + 1];
            if c == 'T' || c == 'A' || c == 'H' {
                lemma_find_close_shift(p, t, close_marker(c), i + 2);
                let j = find_close(t, close_marker(c), i + 2);
                if i < j <= t.len() {
                    lemma_strip_shift(p, t, j);
                    assert(n + j == find_close(u, close_marker(c), n + i + 2));
                }
            } else if c == 'h' || c == 'r' || c == 'n' {
                lemma_strip_shift(p, t, i + 2);
            } else if c == 'c' {
                if i + 10 <= t.len() {
                    lemma_strip_shift(p, t, i + 10);
                }
            } else {
                lemma_strip_shift(p, t, i + 1);
            }
        } else {
            lemma_strip_shift(p, t, i + 1);
        }
    }
}

/// `find_close` stops just past the first `|m` when no `|` comes before it.
proof fn lemma_find_close_reaches(u: Seq<char>, m: char, k: int, stop: int)
    requires
        0 <= k <= stop,
        stop + 1 < u.len(),
        u[stop] == '|',
        u[stop + 1] == m,
        forall|q: int| k <= q < stop ==> u[q] != '|',
    ensures
        find_close(u, m, k) == stop + 2,
    decreases stop - k,
{
    if k < stop {
        lemma_find_close_reaches(u, m, k + 1, stop);
    }
}

proof fn lemma_escape_invisible(c: char, mk: char, s: Seq<char>, t: Seq<char>)
    requires
        c == 'T' || c == 'A' || c == 'H',
        mk == close_marker(c),
        forall|k: int| 0 <= k < s.len() ==> s[k] != '|',
    ensures
        spec_strip_wow_markup(seq!['|', c] + s + seq!['|', mk] + t) == spec_strip_wow_markup(t),
{
    let p = seq!['|', c] + s + seq!['|', mk];
    let u = p + t;
    assert(seq!['|', c] + s + seq!['|', mk] + t == u);
    let stop: int = (s.len() as int) + 2;
    assert(u[0] == '|' && u[1] == c);
    assert(u[stop] == '|' && u[stop + 1] == mk);
    assert forall|q: int| 2 <= q < stop implies u[q] != '|' by {
        assert(u[q] == s[q - 2]);
    }
    lemma_find_close_reaches(u, mk, 2, stop);
    lemma_strip_shift(p, t, 0);
    assert(p.len() == stop + 2);
}

/// A texture (`|T...|t`), atlas (`|A...|a`) or hyperlink-target
/// (`|H...|h`) escape contributes no visible character: stripping it
/// followed by any text gives what stripping that text gives.
pub proof fn lemma_delimited_escapes_are_invisible(s: Seq<char>, t: Seq<char>)
    requires
        forall|k: int| 0 <= k < s.len() ==> s[k] != '|',
    ensures
        spec_strip_wow_markup(seq!['|', 'T'] + s + seq!['|', 't'] + t) == spec_strip_wow_markup(t),
        spec_strip_wow_markup(seq!['|', 'A'] + s + seq!['|', 'a'] + t) == spec_strip_wow_markup(t),
        spec_strip_wow_markup(seq!['|', 'H'] + s + seq!['|', 'h'] + t) == spec_strip_wow_markup(t),
{
    lemma_escape_invisible('T', 't', s, t);
    lemma_escape_invisible('A', 'a', s, t);
    lemma_escape_invisible('H', 'h', s, t);
}

/// The short escapes: `|r` (end of colour) and a lone `|h` (end of link text)
/// show nothing, `|n` shows a line break, a colour code `|cAARRGGBB` shows
/// nothing, and any character other than `|` is shown as it is.
pub proof fn lemma_short_escapes(x: Seq<char>, c: char, t: Seq<char>)
    requires
        x.len() == 8,
        c != '|',
    ensures
        spec_strip_wow_markup(seq!['|', 'r'] + t) == spec_strip_wow_markup(t),
        spec_strip_wow_markup(seq!['|', 'h'] + t) == spec_strip_wow_markup(t),
        spec_strip_wow_markup(seq!['|', 'n'] + t) == seq!['\n'] + spec_strip_wow_markup(t),
        spec_strip_wow_markup(seq!['|', 'c'] + x + t) == spec_strip_wow_markup(t),
        spec_strip_wow_markup(seq![c] + t) == seq![c] + spec_strip_wow_markup(t),
{
    let r = seq!['|', 'r'];
    assert((r + t)[0] == '|' && (r + t)[1] == 'r');
    lemma_strip_shift(r, t, 0);
    let h = seq!['|', 'h'];
    assert((h + t)[0] == '|' && (h + t)[1] == 'h');
    lemma_strip_shift(h, t, 0);
    let n = seq!['|', 'n'];
    assert((n + t)[0] == '|' && (n + t)[1] == 'n');
    lemma_strip_shift(n, t, 0);
    let col = seq!['|', 'c'] + x;
    assert(seq!['|', 'c'] + x + t == col + t);
    assert((col + t)[0] == '|' && (col + t)[1] == 'c');
    assert(col.len() == 10);
    lemma_strip_shift(col, t, 0);
    let one = seq![c];
    assert((one + t)[0] == c);
    lemma_strip_shift(one, t, 0);
}

/// A `|` that starts no escape is shown as it is, and the text after it is
/// read afresh; an unterminated texture, atlas or link escape hides the
/// rest of the text, and so does a colour code cut short.
pub proof fn lemma_unknown_and_unterminated_escapes(c: char, s: Seq<char>, t: Seq<char>)
    requires
        c != 'T' && c != 'A' && c != 'H' && c != 'h' && c != 'r' && c != 'n' && c != 'c',
        forall|k: int| 0 <= k < s.len() ==> s[k] != '|',
        s.len() < 8,
    ensures
        spec_strip_wow_markup(seq!['|', c] + t) == seq!['|'] + spec_strip_wow_markup(seq![c] + t),
        spec_strip_wow_markup(seq!['|']) == seq!['|'],
        spec_strip_wow_markup(seq!['|', 'T'] + s) == Seq::<char>::empty(),
        spec_strip_wow_markup(seq!['|', 'A'] + s) == Seq::<char>::empty(),
        spec_strip_wow_markup(seq!['|', 'H'] + s) == Seq::<char>::empty(),
        spec_strip_wow_markup(seq!['|', 'c'] + s) == Seq::<char>::empty(),
{
    let u = seq!['|', c] + t;
    assert(u[0] == '|' && u[1] == c);
    lemma_strip_shift(seq!['|'], seq![c] + t, 0);
    assert(seq!['|'] + (seq![c] + t) == u);
    let one = seq!['|'];
    assert(strip_from(one, 1) == Seq::<char>::empty());
    lemma_unterminated('T', s);
    lemma_unterminated('A', s);
    lemma_unterminated('H', s);
    let cc = seq!['|', 'c'] + s;
    assert(cc[0] == '|' && cc[1] == 'c');
}

proof fn lemma_unterminated(c: char, s: Seq<char>)
    requires
        c == 'T' || c == 'A' || c == 'H',
        forall|k: int| 0 <= k < s.len() ==> s[k] != '|',
    ensures
        spec_strip_wow_markup(seq!['|', c] + s) == Seq::<char>::empty(),
{
    let u = seq!['|', c] + s;
    assert(u[0] == '|' && u[1] == c);
    assert forall|q: int| 2 <= q < u.len() implies u[q] != '|' by {
        assert(u[q] == s[q - 2]);
    }
    lemma_find_close_past_end(u, close_marker(c), 2);
    assert(strip_from(u, u.len() as int) == Seq::<char>::empty());
}

/// With no `|` from `k` on, `find_close` runs to the end of the text.
proof fn lemma_find_close_past_end(u: Seq<char>, m: char, k: int)
    requires
        0 <= k <= u.len(),
        forall|q: int| k <= q < u.len() ==> u[q] != '|',
    ensures
        find_close(u, m, k) == u.len(),
    decreases u.len() - k,
{
    if k < u.len() {
        lemma_find_close_past_end(u, m, k + 1);
    }
}

} // verus!
