//! WoW font paths: the alias table that maps every spelling of a WoW font
//! path to a loaded font family, the spellings a CASC lookup tries, the
//! encoding keys of the bundled fonts, and the shape of addon font paths.

use vstd::prelude::*;
use vstd::string::StringSliceAdditionalSpecFns;
use vstd::utf8::is_char_boundary;
use crate::keyed::{get_ref, keys_distinct, lookup, store, stored_under};
use crate::text::{chars_of, eq_ic, eq_ignore_ascii_case, replace_char, replace_char_seq, upper_seq};

verus! {

/// The default WoW font (Friz Quadrata).
pub const DEFAULT_WOW_FONT: &'static str = "Fonts\\FRIZQT__.TTF";

/// What std's `str::to_uppercase` gives for a string: its Unicode upper-case
/// form.
pub uninterp spec fn spec_to_uppercase(s: Seq<char>) -> Seq<char>;

/// Every character is ASCII.
pub open spec fn is_ascii_chars(s: Seq<char>) -> bool {
    forall|i: int| 0 <= i < s.len() ==> (#[trigger] s[i] as u32) < 128
}

/// Two font paths that differ only in the case of ASCII letters and in `/`
/// versus `\` separators.
pub open spec fn same_font_path(p: Seq<char>, q: Seq<char>) -> bool {
    eq_ic(replace_char_seq(p, '\\', '/'), replace_char_seq(q, '\\', '/'))
}

/// std's `str::to_uppercase`. The result is named by `spec_to_uppercase`.
/// Its documentation defines upper case by the Unicode `Uppercase`
/// property, mapping character by character, and a character without an
/// upper-case mapping (such as `/` or `\`) is kept. So an ASCII string
/// upper-cases letter by letter; strings that differ only in the case of
/// ASCII letters upper-case alike; and strings that differ only in that
/// and in `/` versus `\` upper-case alike once `\` is read as `/`.
/// Nothing else is stated of non-ASCII text.
#[verifier::external_body]
fn to_uppercase(s: &str) -> (r: String)
    ensures
        r@ == spec_to_uppercase(s@),
        is_ascii_chars(s@) ==> r@ == upper_seq(s@),
        forall|t: Seq<char>| #[trigger] eq_ic(t, s@) ==> spec_to_uppercase(t) == r@,
        forall|t: Seq<char>|
            #[trigger] same_font_path(t, s@) ==> replace_char_seq(spec_to_uppercase(t), '\\', '/')
                == replace_char_seq(r@, '\\', '/'),
{
    s.to_uppercase()
}

/// The lookup key of a font path: upper-cased, then backslashes turned into
/// forward slashes.
pub open spec fn spec_font_key(path: Seq<char>) -> Seq<char> {
    replace_char_seq(spec_to_uppercase(path), '\\', '/')
}

/// The lookup key of a WoW font path: upper case with forward slashes
/// (`path.to_uppercase()` with every `\` replaced by `/`), so that paths
/// differing only in ASCII case or in separators share a key.
pub fn normalize_wow_path(path: &str) -> (r: String)
    ensures
        r@ == spec_font_key(path@),
        is_ascii_chars(path@) ==> r@ == replace_char_seq(upper_seq(path@), '\\', '/'),
        forall|q: Seq<char>| #[trigger] same_font_path(q, path@) ==> spec_font_key(q) == r@,
{
    let upper = to_uppercase(path);
    replace_char(upper.as_str(), '\\', '/')
}

/// The spellings a CASC lookup of a font path tries: with forward slashes,
/// then with backslashes.
pub fn font_path_candidates(path: &str) -> (r: Vec<String>)
    ensures
        r@.len() == 2,
        r@[0]@ == replace_char_seq(path@, '\\', '/'),
        r@[1]@ == replace_char_seq(replace_char_seq(path@, '\\', '/'), '/', '\\'),
{
    let slash_path = replace_char(path, '\\', '/');
    let backslash_path = replace_char(slash_path.as_str(), '/', '\\');
    let mut out: Vec<String> = Vec::new();
    out.push(slash_path);
    out.push(backslash_path);
    out
}

/// The value of a hexadecimal digit byte.
pub open spec fn hex_value(b: u8) -> Option<u8> {
    if 48 <= b <= 57 {
        Some((b - 48) as u8)
    } else if 97 <= b <= 102 {
        Some((b - 87) as u8)
    } else if 65 <= b <= 70 {
        Some((b - 55) as u8)
    } else {
        None
    }
}

/// A two-byte field read as std's `u8::from_str_radix(_, 16)` reads it: two
/// hex digits, or `+` and one hex digit.
pub open spec fn hex_pair(b0: u8, b1: u8) -> Option<u8> {
    match (hex_value(b0), hex_value(b1)) {
        (Some(h), Some(l)) => Some((h * 16 + l) as u8),
        (None, Some(l)) => if b0 == 43 {
            Some(l)
        } else {
            None
        },
        _ => None,
    }
}

/// The `k`-th two-byte field of `s`, read as a byte.
pub open spec fn pair_at(s: Seq<u8>, k: int) -> Option<u8> {
    hex_pair(s[2 * k], s[2 * k + 1])
}

/// A 32-byte hexadecimal string read as 16 bytes, pair by pair.
pub open spec fn spec_parse_hex_16(s: Seq<u8>) -> Option<Seq<u8>> {
    if s.len() != 32 || exists|k: int| 0 <= k < 16 && (#[trigger] pair_at(s, k)) is None {
        None
    } else {
        Some(Seq::new(16, |k: int| pair_at(s, k)->Some_0))
    }
}

fn hex_value_exec(b: u8) -> (r: Option<u8>)
    ensures
        r == hex_value(b),
{
    if 48 <= b && b <= 57 {
        Some(b - 48)
    } else if 97 <= b && b <= 102 {
        Some(b - 87)
    } else if 65 <= b && b <= 70 {
        Some(b - 55)
    } else {
        None
    }
}

fn hex_pair_exec(b0: u8, b1: u8) -> (r: Option<u8>)
    ensures
        r == hex_pair(b0, b1),
{
    match (hex_value_exec(b0), hex_value_exec(b1)) {
        (Some(h), Some(l)) => Some(h * 16 + l),
        (None, Some(l)) => {
            if b0 == 43 {
                Some(l)
            } else {
                None
            }
        },
        _ => None,
    }
}

/// Parses the 32 hex digits of a CASC encoding key into its 16 bytes.
pub fn parse_hex_16(hex: &str) -> (r: Option<[u8; 16]>)
    requires
        hex.spec_bytes().len() == 32 ==> forall|k: int|
            0 <= k <= 16 ==> #[trigger] is_char_boundary(hex.spec_bytes(), 2 * k),
    ensures
        match spec_parse_hex_16(hex.spec_bytes()) {
            Some(v) => r matches Some(a) && a@ == v,
            None => r is None,
        },
{
    let bytes = hex.as_bytes();
    if bytes.len() != 32 {
        return None;
    }
    let mut out: [u8; 16] = [0u8; 16];
    let mut k: usize = 0;
    while k < 16
        invariant
            bytes@ == hex.spec_bytes(),
            bytes@.len() == 32,
            k <= 16,
            out@.len() == 16,
            forall|q: int| 0 <= q < k ==> (#[trigger] pair_at(bytes@, q)) is Some && out@[q]
                == pair_at(bytes@, q)->Some_0,
        decreases 16 - k,
    {
        match hex_pair_exec(bytes[2 * k], bytes[2 * k + 1]) {
            Some(v) => {
                out.set(k, v);
            },
            None => {
                assert(pair_at(bytes@, k as int) is None);
                return None;
            },
        }
        k = k + 1;
    }
    assert(out@ == Seq::new(16, |q: int| pair_at(bytes@, q)->Some_0));
    assert(!exists|q: int| 0 <= q < 16 && (#[trigger] pair_at(bytes@, q)) is None);
    Some(out)
}

/// The byte of the lower-case hexadecimal digit of a value below sixteen.
pub open spec fn hex_digit_byte(d: int) -> u8 {
    if d < 10 {
        (48 + d) as u8
    } else {
        (87 + d) as u8
    }
}

/// Bytes written as 32 lower-case hex digits, high digit first.
pub open spec fn hex_encode_16(v: Seq<u8>) -> Seq<u8> {
    Seq::new(
        32,
        |i: int|
            if i % 2 == 0 {
                hex_digit_byte((v[i / 2] / 16) as int)
            } else {
                hex_digit_byte((v[i / 2] % 16) as int)
            },
    )
}

/// Parsing reads back 16 bytes written as hex: each pair of digits gives
/// the byte whose high and low nibbles they are, in order.
pub proof fn lemma_parse_hex_reads_back_bytes(v: Seq<u8>)
    requires
        v.len() == 16,
    ensures
        spec_parse_hex_16(hex_encode_16(v)) == Some(v),
{
    let s = hex_encode_16(v);
    assert forall|k: int| 0 <= k < 16 implies #[trigger] pair_at(s, k) == Some(v[k]) by {
        assert((2 * k) % 2 == 0 && (2 * k) / 2 == k);
        assert((2 * k + 1) % 2 == 1 && (2 * k + 1) / 2 == k);
        let hi = v[k] / 16;
        let lo = v[k] % 16;
        assert(hex_value(s[2 * k]) == Some(hi as u8));
        assert(hex_value(s[2 * k + 1]) == Some(lo as u8));
        assert(hi * 16 + lo == v[k]);
    }
    assert(Seq::new(16, |k: int| pair_at(s, k)->Some_0) == v);
}

/// A loaded font family, known under one or more WoW paths.
#[derive(Debug, Clone, PartialEq, Eq)]
pub struct FontEntry {
    pub family: String,
}

/// The table from font lookup keys to loaded families.
#[derive(Debug)]
pub struct FontMap {
    pub entries: Vec<(String, FontEntry)>,
}

impl FontMap {
    /// An empty table.
    pub fn new() -> (r: Self)
        ensures
            r.entries@.len() == 0,
    {
        FontMap { entries: Vec::new() }
    }

    /// Keys are distinct.
    pub open spec fn wf(&self) -> bool {
        keys_distinct(self.entries@)
    }

    /// The family a font path names: the path's own entry, else the default
    /// font's entry.
    pub open spec fn spec_family_name(&self, wow_path: Option<Seq<char>>) -> Option<Seq<char>> {
        let key = spec_font_key(
            match wow_path {
                Some(p) => p,
                None => "Fonts\\FRIZQT__.TTF"@,
            },
        );
        match lookup(self.entries@, key) {
            Some(e) => Some(e.family@),
            None => match lookup(self.entries@, spec_font_key("Fonts\\FRIZQT__.TTF"@)) {
                Some(e) => Some(e.family@),
                None => None,
            },
        }
    }

    /// The family a font path names, falling back to the default WoW font;
    /// `None` only when the default font is not registered either. Paths
    /// that differ only in ASCII letter case or in `/` versus `\`
    /// separators name the same family.
    pub fn family_name(&self, wow_path: Option<&str>) -> (r: Option<&str>)
        ensures
            match self.spec_family_name(
                match wow_path {
                    Some(p) => Some(p@),
                    None => None,
                },
            ) {
                Some(f) => r matches Some(s) && s@ == f,
                None => r is None,
            },
            match wow_path {
                Some(p) => forall|q: Seq<char>|
                    #[trigger] same_font_path(q, p@) ==> self.spec_family_name(Some(q))
                        == self.spec_family_name(Some(p@)),
                None => true,
            },
    {
        let path = match wow_path {
            Some(p) => p,
            None => DEFAULT_WOW_FONT,
        };
        let key = normalize_wow_path(path);
        match get_ref(&self.entries, key.as_str()) {
            Some(e) => Some(e.family.as_str()),
            None => {
                let default_key = normalize_wow_path(DEFAULT_WOW_FONT);
                match get_ref(&self.entries, default_key.as_str()) {
                    Some(e) => Some(e.family.as_str()),
                    None => None,
                }
            },
        }
    }
}

/// `key` maps to an entry of family `family`.
pub open spec fn maps_to_family(entries: Seq<(String, FontEntry)>, key: Seq<char>, family: Seq<char>) -> bool {
    lookup(entries, key) matches Some(e) && e.family@ == family
}

/// Registers `family_name` under the lookup key of `wow_path`.
pub fn register_font_alias(wow_path: &str, family_name: &str, font_map: &mut FontMap)
    requires
        old(font_map).wf(),
    ensures
        final(font_map).wf(),
        exists|e: FontEntry|
            e.family@ == family_name@ && stored_under(
                final(font_map).entries@,
                old(font_map).entries@,
                spec_font_key(wow_path@),
                e,
            ),
{
    let key = normalize_wow_path(wow_path);
    let v = chars_of(family_name);
    let entry = FontEntry { family: crate::text::string_from_chars(v.as_slice()) };
    let ghost e = entry;
    store(&mut font_map.entries, key, entry);
    assert(stored_under(font_map.entries@, old(font_map).entries@, spec_font_key(wow_path@), e));
}

/// Registers `family_name` under the lookup key of each path, in order.
pub fn register_font_aliases(wow_paths: &[&str], family_name: &str, font_map: &mut FontMap)
    requires
        old(font_map).wf(),
    ensures
        final(font_map).wf(),
        forall|i: int|
            0 <= i < wow_paths@.len() ==> #[trigger] maps_to_family(
                final(font_map).entries@,
                spec_font_key(wow_paths@[i]@),
                family_name@,
            ),
        forall|k: Seq<char>|
            (forall|i: int| 0 <= i < wow_paths@.len() ==> k != #[trigger] spec_font_key(wow_paths@[i]@))
                ==> #[trigger] lookup(final(font_map).entries@, k) == lookup(old(font_map).entries@, k),
{
    let mut i: usize = 0;
    while i < wow_paths.len()
        invariant
            font_map.wf(),
            i <= wow_paths@.len(),
            forall|j: int|
                0 <= j < i ==> #[trigger] maps_to_family(
                    font_map.entries@,
                    spec_font_key(wow_paths@[j]@),
                    family_name@,
                ),
            forall|k: Seq<char>|
                (forall|j: int| 0 <= j < i ==> k != #[trigger] spec_font_key(wow_paths@[j]@))
                    ==> #[trigger] lookup(font_map.entries@, k) == lookup(old(font_map).entries@, k),
        decreases wow_paths@.len() - i,
    {
        let ghost before = font_map.entries@;
        register_font_alias(wow_paths[i], family_name, font_map);
        proof {
            let key = spec_font_key(wow_paths@[i as int]@);
            let e = choose|e: FontEntry|
                e.family@ == family_name@ && stored_under(font_map.entries@, before, key, e);
            assert(lookup(font_map.entries@, key) == Some(e));
            assert forall|j: int| 0 <= j < i + 1 implies #[trigger] maps_to_family(
                font_map.entries@,
                spec_font_key(wow_paths@[j]@),
                family_name@,
            ) by {
                if j < i {
                    assert(maps_to_family(before, spec_font_key(wow_paths@[j]@), family_name@));
                }
                if spec_font_key(wow_paths@[j]@) != key {
                    assert(lookup(font_map.entries@, spec_font_key(wow_paths@[j]@)) == lookup(
                        before,
                        spec_font_key(wow_paths@[j]@),
                    ));
                }
            }
            assert forall|k: Seq<char>|
                (forall|j: int| 0 <= j < i + 1 ==> k != #[trigger] spec_font_key(wow_paths@[j]@))
                    implies #[trigger] lookup(font_map.entries@, k) == lookup(old(font_map).entries@, k) by {
                assert(k != spec_font_key(wow_paths@[i as int]@));
                assert(lookup(font_map.entries@, k) == lookup(before, k));
            }
        }
        i = i + 1;
    }
}

/// The components of an addon font path below `Interface/AddOns/` (either
/// slash, any case), when there is at least one and none is empty, `.` or
/// `..`.
pub open spec fn spec_addon_font_path_tail(path: Seq<char>) -> Option<Seq<Seq<char>>> {
    let comps = split_on(replace_char_seq(path, '\\', '/'), '/');
    if comps.len() >= 3 && eq_ic(comps[0], "Interface"@) && eq_ic(comps[1], "AddOns"@) && forall|
        i: int,
    |
        2 <= i < comps.len() ==> #[trigger] comps[i] != Seq::<char>::empty() && comps[i] != "."@
            && comps[i] != ".."@ {
        Some(comps.subrange(2, comps.len() as int))
    } else {
        None
    }
}

/// `s` split at every `sep` (an empty input gives one empty part).
pub open spec fn split_on(s: Seq<char>, sep: char) -> Seq<Seq<char>>
    decreases s.len(),
{
    if s.len() == 0 {
        seq![Seq::empty()]
    } else {
        let rest = split_on(s.drop_last(), sep);
        if s.last() == sep {
            rest.push(Seq::empty())
        } else {
            rest.update(rest.len() - 1, rest.last().push(s.last()))
        }
    }
}

proof fn lemma_split_on_nonempty(s: Seq<char>, sep: char)
    ensures
        split_on(s, sep).len() >= 1,
    decreases s.len(),
{
    if s.len() > 0 {
        lemma_split_on_nonempty(s.drop_last(), sep);
    }
}

/// Splits a string at every `sep`.
pub fn split_chars(s: &str, sep: char) -> (r: Vec<Vec<char>>)
    ensures
        r@.len() == split_on(s@, sep).len(),
        forall|i: int| 0 <= i < r@.len() ==> #[trigger] r@[i]@ == split_on(s@, sep)[i],
{
    let v = chars_of(s);
    let mut parts: Vec<Vec<char>> = Vec::new();
    parts.push(Vec::new());
    let mut i: usize = 0;
    while i < v.len()
        invariant
            v@ == s@,
            i <= v@.len(),
            parts@.len() >= 1,
            parts@.len() == split_on(v@.subrange(0, i as int), sep).len(),
            forall|k: int| 0 <= k < parts@.len() ==> #[trigger] parts@[k]@ == split_on(
                v@.subrange(0, i as int),
                sep,
            )[k],
        decreases v@.len() - i,
    {
        let ghost pre = v@.subrange(0, i as int);
        proof {
            assert(v@.subrange(0, i + 1).drop_last() == pre);
            lemma_split_on_nonempty(pre, sep);
        }
        if v[i] == sep {
            parts.push(Vec::new());
        } else {
            let last = parts.len() - 1;
            let mut cur = parts.remove(last);
            cur.push(v[i]);
            parts.push(cur);
        }
        proof {
            let post = split_on(v@.subrange(0, i + 1), sep);
            assert forall|k: int| 0 <= k < parts@.len() implies #[trigger] parts@[k]@ == post[k] by {}
        }
        i = i + 1;
    }
    assert(v@.subrange(0, v@.len() as int) == v@);
    parts
}

/// The components of an addon font path below `Interface/AddOns/`, the
/// part a font file is looked up by in each addon root.
pub fn addon_font_path_tail(path: &str) -> (r: Option<Vec<Vec<char>>>)
    ensures
        match spec_addon_font_path_tail(path@) {
            Some(t) => r matches Some(v) && v@.len() == t.len() && forall|i: int|
                0 <= i < t.len() ==> #[trigger] v@[i]@ == t[i],
            None => r is None,
        },
{
    proof {
        reveal_strlit("Interface");
        reveal_strlit("AddOns");
        reveal_strlit(".");
        reveal_strlit("..");
    }
    let normalized = replace_char(path, '\\', '/');
    let comps = split_chars(normalized.as_str(), '/');
    let ghost sc = split_on(replace_char_seq(path@, '\\', '/'), '/');
    if comps.len() < 3 {
        return None;
    }
    let first = crate::text::string_from_chars(comps[0].as_slice());
    let second = crate::text::string_from_chars(comps[1].as_slice());
    if !eq_ignore_ascii_case(first.as_str(), "Interface") || !eq_ignore_ascii_case(
        second.as_str(),
        "AddOns",
    ) {
        return None;
    }
    let mut tail: Vec<Vec<char>> = Vec::new();
    let mut i: usize = 2;
    while i < comps.len()
        invariant
            sc == split_on(replace_char_seq(path@, '\\', '/'), '/'),
            comps@.len() == sc.len(),
            forall|k: int| 0 <= k < comps@.len() ==> #[trigger] comps@[k]@ == sc[k],
            2 <= i <= comps@.len(),
            tail@.len() == i - 2,
            forall|k: int| 0 <= k < tail@.len() ==> #[trigger] tail@[k]@ == sc[k + 2],
            forall|k: int|
                2 <= k < i ==> #[trigger] sc[k] != Seq::<char>::empty() && sc[k] != "."@ && sc[k]
                    != ".."@,
        decreases comps@.len() - i,
    {
        proof {
            reveal_strlit(".");
            reveal_strlit("..");
        }
        let part = &comps[i];
        let n = part.len();
        let is_dot = n == 1 && part[0] == '.';
        let is_dotdot = n == 2 && part[0] == '.' && part[1] == '.';
        if n == 0 || is_dot || is_dotdot {
            proof {
                if n == 0 {
                    assert(sc[i as int] =~= Seq::<char>::empty());
                }
                if n == 1 {
                    assert(sc[i as int] == "."@);
                }
                if n == 2 {
                    assert(sc[i as int] == ".."@);
                }
                assert(!(sc[i as int] != Seq::<char>::empty() && sc[i as int] != "."@ && sc[i as int]
                    != ".."@));
                assert(spec_addon_font_path_tail(path@) is None);
            }
            return None;
        }
        proof {
            assert(sc[i as int] != "."@) by {
                if sc[i as int] == "."@ {
                    assert(sc[i as int].len() == 1 && sc[i as int][0] == '.');
                }
            }
            assert(sc[i as int] != ".."@) by {
                if sc[i as int] == ".."@ {
                    assert(sc[i as int].len() == 2 && sc[i as int][0] == '.' && sc[i as int][1] == '.');
                }
            }
        }
        let mut copy: Vec<char> = Vec::new();
        let mut j: usize = 0;
        while j < n
            invariant
                n == part@.len(),
                j <= n,
                copy@ == part@.subrange(0, j as int),
            decreases n - j,
        {
            copy.push(part[j]);
            j = j + 1;
        }
        assert(part@.subrange(0, n as int) == part@);
        tail.push(copy);
        i = i + 1;
    }
    assert(spec_addon_font_path_tail(path@) == Some(sc.subrange(2, sc.len() as int)));
    Some(tail)
}

/// A font path registered for a family names that family, whatever else is
/// registered.
pub proof fn lemma_registered_alias_names_family(map: FontMap, wow_path: Seq<char>, family: Seq<char>)
    requires
        maps_to_family(map.entries@, spec_font_key(wow_path), family),
    ensures
        map.spec_family_name(Some(wow_path)) == Some(family),
{
}


/// Index of the last `c` in `p`, or `-1`.
pub open spec fn last_index_of(p: Seq<char>, c: char) -> int
    decreases p.len(),
{
    if p.len() == 0 {
        -1
    } else if p.last() == c {
        p.len() - 1
    } else {
        last_index_of(p.drop_last(), c)
    }
}

proof fn lemma_last_index_of(p: Seq<char>, c: char)
    ensures
        -1 <= last_index_of(p, c) < p.len(),
        last_index_of(p, c) >= 0 ==> p[last_index_of(p, c)] == c,
        forall|k: int| last_index_of(p, c) < k < p.len() ==> #[trigger] p[k] != c,
    decreases p.len(),
{
    if p.len() > 0 && p.last() != c {
        lemma_last_index_of(p.drop_last(), c);
        assert forall|k: int| last_index_of(p, c) < k < p.len() implies #[trigger] p[k] != c by {
            if k < p.len() - 1 {
                assert(p.drop_last()[k] == p[k]);
            }
        }
    }
}

/// The extension of a file path as `Path::extension` reads it: what follows
/// the last `.` of the last component, unless that `.` starts the name.
pub open spec fn path_extension(p: Seq<char>) -> Option<Seq<char>> {
    let name = p.subrange(last_index_of(p, '/') + 1, p.len() as int);
    let dot = last_index_of(name, '.');
    if dot > 0 {
        Some(name.subrange(dot + 1, name.len() as int))
    } else {
        None
    }
}

/// Whether a file found in an addon directory is a font the simulator
/// loads: its extension is `ttf` or `otf` in any case.
pub open spec fn spec_is_addon_font_file(p: Seq<char>) -> bool {
    match path_extension(p) {
        Some(e) => eq_ic(e, "ttf"@) || eq_ic(e, "otf"@),
        None => false,
    }
}

/// The index of the last `c` in `v`, if any.
fn find_last(v: &Vec<char>, c: char) -> (r: Option<usize>)
    ensures
        match r {
            Some(i) => i as int == last_index_of(v@, c),
            None => last_index_of(v@, c) == -1,
        },
{
    let mut i = v.len();
    assert(v@.subrange(0, i as int) == v@);
    while i > 0
        invariant
            i <= v@.len(),
            last_index_of(v@, c) == last_index_of(v@.subrange(0, i as int), c),
        decreases i,
    {
        if v[i - 1] == c {
            assert(v@.subrange(0, i as int).last() == v@[i - 1]);
            return Some(i - 1);
        }
        assert(v@.subrange(0, i as int).drop_last() == v@.subrange(0, i - 1));
        i = i - 1;
    }
    None
}

fn sub_chars(v: &Vec<char>, start: usize, end: usize) -> (r: Vec<char>)
    requires
        start <= end <= v@.len(),
    ensures
        r@ == v@.subrange(start as int, end as int),
{
    let mut out: Vec<char> = Vec::new();
    let mut k = start;
    while k < end
        invariant
            start <= k <= end <= v@.len(),
            out@ == v@.subrange(start as int, k as int),
        decreases end - k,
    {
        out.push(v[k]);
        assert(v@.subrange(start as int, k + 1) == v@.subrange(start as int, k as int).push(v@[k as int]));
        k = k + 1;
    }
    out
}

/// Whether a file found below an addon root is a font the simulator loads
/// (a `.ttf` or `.otf` file, in any case).
pub fn is_addon_font_file(path: &str) -> (r: bool)
    ensures
        r == spec_is_addon_font_file(path@),
{
    proof {
        reveal_strlit("ttf");
        reveal_strlit("otf");
    }
    let v = chars_of(path);
    proof {
        lemma_last_index_of(v@, '/');
    }
    let start = match find_last(&v, '/') {
        Some(i) => i + 1,
        None => 0,
    };
    let name = sub_chars(&v, start, v.len());
    match find_last(&name, '.') {
        Some(dot) => {
            proof {
                lemma_last_index_of(name@, '.');
            }
            if dot == 0 {
                return false;
            }
            let ext_chars = sub_chars(&name, dot + 1, name.len());
            let ext = crate::text::string_from_chars(ext_chars.as_slice());
            eq_ignore_ascii_case(ext.as_str(), "ttf") || eq_ignore_ascii_case(ext.as_str(), "otf")
        },
        None => false,
    }
}

/// The WoW path of a font file found below an addon root:
/// `Interface/AddOns/` followed by its path relative to the root, with
/// `\` turned into `/`.
pub fn addon_font_wow_path(relative: &str) -> (r: String)
    ensures
        r@ == "Interface/AddOns/"@ + replace_char_seq(relative@, '\\', '/'),
{
    let slashed = replace_char(relative, '\\', '/');
    let mut v = chars_of("Interface/AddOns/");
    crate::text::push_str(&mut v, slashed.as_str());
    crate::text::string_from_chars(v.as_slice())
}

} // verus!
