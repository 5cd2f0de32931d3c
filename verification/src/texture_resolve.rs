//! Texture path policy and the in-memory texture caches.
//!
//! WoW texture paths are normalized to forward slashes. Addon textures live
//! under `Interface/AddOns/` and resolve inside the configured addon
//! directories only; Blizzard art is reached through CASC and an extracted
//! interface dump unless the run forbids Blizzard UI resources. Cropped atlas
//! regions are cached under `path#x_y_w_h` keys and persisted to disk under a
//! file name built from the key.

use vstd::prelude::*;
use crate::keyed::{find_key, get_ref, keys_distinct, lemma_key_index, lookup, store, stored_under};
use crate::text::{find_chars, find_from, lemma_find_from, decimal, push_decimal, chars_of, eq_ic, eq_ignore_ascii_case, has_prefix, hex_fixed, lower_char, lower_seq, push_hex_fixed, push_str, replace_char, replace_char_seq, starts_with_chars, str_eq, string_from_chars, to_ascii_lowercase, to_lower_char};
use std::collections::hash_map::DefaultHasher;
use vstd::std_specs::hash::DefaultHasherAdditionalSpecFns;
use std::hash::{Hash, Hasher};
use crate::texture_pixels::{TextureData, extract_sub_region, spec_extract};

verus! {

// ---------------------------------------------------------------------------
// Paths
// ---------------------------------------------------------------------------

/// A texture path with every backslash turned into a forward slash.
pub open spec fn spec_normalize_wow_path(s: Seq<char>) -> Seq<char> {
    replace_char_seq(s, '\\', '/')
}

/// Normalizes a WoW texture path to forward slashes.
pub fn normalize_wow_path(path: &str) -> (r: String)
    ensures
        r@ == spec_normalize_wow_path(path@),
{
    replace_char(path, '\\', '/')
}

/// A switch value that turns an option on: `1`, or `true` in any case.
pub open spec fn switch_on(value: Option<Seq<char>>) -> bool {
    match value {
        Some(v) => v == "1"@ || eq_ic(v, "true"@),
        None => false,
    }
}

fn switch_value_on(value: Option<&str>) -> (r: bool)
    ensures
        r == switch_on(
            match value {
                Some(v) => Some(v@),
                None => None,
            },
        ),
{
    match value {
        Some(v) => str_eq(v, "1") || eq_ignore_ascii_case(v, "true"),
        None => false,
    }
}

/// Whether Blizzard UI art may be used, given the value of the variable that
/// skips Blizzard UI (`WOW_SIM_SKIP_BLIZZARD_UI`): only an "on" value forbids it.
pub fn blizzard_fallback_allowed_for(value: Option<&str>) -> (r: bool)
    ensures
        r == !switch_on(
            match value {
                Some(v) => Some(v@),
                None => None,
            },
        ),
{
    !switch_value_on(value)
}

/// Whether CASC media may be read while Blizzard UI is forbidden, given the
/// value of `WOW_SIM_ALLOW_CASC_MEDIA`: it takes an explicit "on" value.
pub fn casc_media_fallback_allowed_for(value: Option<&str>) -> (r: bool)
    ensures
        r == switch_on(
            match value {
                Some(v) => Some(v@),
                None => None,
            },
        ),
{
    switch_value_on(value)
}

/// Whether a normalized path names one of the legacy paper-doll slot icons.
pub fn is_legacy_paperdoll_slot_path(normalized_path: &str) -> (r: bool)
    ensures
        r == has_prefix(lower_seq(normalized_path@), "interface/paperdoll/ui-paperdoll-slot-"@),
{
    let lower = to_ascii_lowercase(normalized_path);
    starts_with_chars(lower.as_slice(), "interface/paperdoll/ui-paperdoll-slot-")
}

/// The path below `Interface/AddOns/` (matched in any case), if it is there.
pub fn strip_addons_prefix(path: &str) -> (r: Option<&str>)
    ensures
        match r {
            Some(rest) => path@.len() >= 17 && eq_ic(path@.subrange(0, 17), "Interface/AddOns/"@)
                && rest@ == path@.subrange(17, path@.len() as int),
            None => !(path@.len() >= 17 && eq_ic(path@.subrange(0, 17), "Interface/AddOns/"@)),
        },
{
    proof {
        reveal_strlit("Interface/AddOns/");
    }
    let n = path.unicode_len();
    if n < 17 {
        return None;
    }
    let head = path.substring_char(0, 17);
    if eq_ignore_ascii_case(head, "Interface/AddOns/") {
        Some(path.substring_char(17, n))
    } else {
        None
    }
}

/// End of the path component that starts at `i` (the next `/` or the end).
pub open spec fn seg_end(p: Seq<char>, i: int) -> int
    decreases p.len() - i,
{
    if i < 0 || i >= p.len() || p[i] == '/' {
        i
    } else {
        seg_end(p, i + 1)
    }
}

/// A component that stays an ordinary relative name: not `..`, not a
/// leading `.`, and free of `:` (a drive or stream prefix).
pub open spec fn seg_allowed(seg: Seq<char>, at_start: bool) -> bool {
    seg != ".."@ && !(at_start && seg == "."@) && !seg.contains(':')
}

/// Every component from `i` on is allowed (empty components are skipped, as
/// repeated separators are).
pub open spec fn segs_ok(p: Seq<char>, i: int) -> bool
    decreases p.len() - i,
{
    if i < 0 || i >= p.len() {
        true
    } else {
        let j = seg_end(p, i);
        if j < i || j > p.len() {
            false
        } else if j == p.len() {
            seg_allowed(p.subrange(i, j), i == 0)
        } else {
            seg_allowed(p.subrange(i, j), i == 0) && segs_ok(p, j + 1)
        }
    }
}

/// An addon-relative path is safe when, with backslashes read as slashes, it
/// is not absolute and none of its components climbs, names the current
/// directory at the start, or carries a `:`.
pub open spec fn spec_is_safe_relative_path(path: Seq<char>) -> bool {
    let p = spec_normalize_wow_path(path);
    !(p.len() > 0 && p[0] == '/') && segs_ok(p, 0)
}

proof fn lemma_seg_end(p: Seq<char>, i: int)
    requires
        0 <= i <= p.len(),
    ensures
        i <= seg_end(p, i) <= p.len(),
        seg_end(p, i) < p.len() ==> p[seg_end(p, i)] == '/',
        forall|k: int| i <= k < seg_end(p, i) ==> #[trigger] p[k] != '/',
    decreases p.len() - i,
{
    if i < p.len() && p[i] != '/' {
        lemma_seg_end(p, i + 1);
    }
}

fn seg_allowed_exec(p: &Vec<char>, i: usize, j: usize) -> (r: bool)
    requires
        i <= j <= p@.len(),
    ensures
        r == seg_allowed(p@.subrange(i as int, j as int), i == 0),
{
    proof {
        reveal_strlit("..");
        reveal_strlit(".");
    }
    let len = j - i;
    if len == 2 && p[i] == '.' && p[i + 1] == '.' {
        assert(p@.subrange(i as int, j as int) == ".."@);
        return false;
    }
    if len == 1 && i == 0 && p[i] == '.' {
        assert(p@.subrange(i as int, j as int) == "."@);
        return false;
    }
    let mut k = i;
    while k < j
        invariant
            i <= k <= j <= p@.len(),
            forall|m: int| i <= m < k ==> p@[m] != ':',
        decreases j - k,
    {
        if p[k] == ':' {
            assert(p@.subrange(i as int, j as int)[k - i] == ':');
            return false;
        }
        k = k + 1;
    }
    let ghost seg = p@.subrange(i as int, j as int);
    assert(!seg.contains(':')) by {
        if seg.contains(':') {
            let q = choose|q: int| 0 <= q < seg.len() && seg[q] == ':';
            assert(p@[i + q] == ':');
        }
    }
    assert(seg != ".."@) by {
        if seg == ".."@ {
            assert(seg.len() == 2);
            assert(seg[0] == '.' && seg[1] == '.');
        }
    }
    assert(!(i == 0 && seg == "."@)) by {
        if i == 0 && seg == "."@ {
            assert(seg.len() == 1);
            assert(seg[0] == '.');
        }
    }
    true
}

/// Whether an addon-relative path stays an ordinary relative path.
pub fn is_safe_relative_path(path: &str) -> (r: bool)
    ensures
        r == spec_is_safe_relative_path(path@),
{
    let normalized = normalize_wow_path(path);
    let p = chars_of(normalized.as_str());
    let n = p.len();
    if n > 0 && p[0] == '/' {
        return false;
    }
    let mut i: usize = 0;
    while i < n
        invariant
            n == p@.len(),
            p@ == spec_normalize_wow_path(path@),
            i <= n,
            segs_ok(p@, 0) == segs_ok(p@, i as int),
        decreases n - i,
    {
        proof {
            lemma_seg_end(p@, i as int);
        }
        let mut j = i;
        while j < n && p[j] != '/'
            invariant
                n == p@.len(),
                i <= j <= n,
                seg_end(p@, j as int) == seg_end(p@, i as int),
            decreases n - j,
        {
            j = j + 1;
        }
        if !seg_allowed_exec(&p, i, j) {
            return false;
        }
        if j >= n {
            i = n;
            assert(segs_ok(p@, (j + 1) as int));
        } else {
            i = j + 1;
        }
    }
    true
}

/// The cache key of a crop request `base@crop:spec`: the base path is
/// normalized, the crop part kept as written; a key without `@crop:` is a
/// plain normalized path.
pub open spec fn spec_crop_request_key(path: Seq<char>) -> Seq<char> {
    let idx = find_from(path, "@crop:"@, 0);
    if idx >= 0 {
        spec_normalize_wow_path(path.subrange(0, idx)) + path.subrange(idx, path.len() as int)
    } else {
        spec_normalize_wow_path(path)
    }
}

/// The cache key under which a crop request is stored.
pub fn normalize_crop_request_key(path: &str) -> (r: String)
    ensures
        r@ == spec_crop_request_key(path@),
{
    let chars = chars_of(path);
    let pat = chars_of("@crop:");
    match find_chars(&chars, &pat) {
        Some(index) => {
            proof {
                lemma_find_from(path@, "@crop:"@, 0);
            }
            let n = path.unicode_len();
            let base = normalize_wow_path(path.substring_char(0, index));
            let mut out: Vec<char> = chars_of(base.as_str());
            push_str(&mut out, path.substring_char(index, n));
            string_from_chars(out.as_slice())
        },
        None => normalize_wow_path(path),
    }
}

// ---------------------------------------------------------------------------
// Persistent crop cache file names
// ---------------------------------------------------------------------------

/// ASCII letters and digits.
pub open spec fn is_ascii_alnum(c: char) -> bool {
    ('0' <= c && c <= '9') || ('a' <= c && c <= 'z') || ('A' <= c && c <= 'Z')
}

/// The file-name prefix built from a cache key up to its `i`-th character:
/// letters and digits lower-cased, every other run of characters one `_`,
/// and nothing added once the prefix holds 96 characters.
pub open spec fn prefix_from(key: Seq<char>, i: int, acc: Seq<char>) -> Seq<char>
    decreases key.len() - i,
{
    if i < 0 || i >= key.len() || acc.len() >= 96 {
        acc
    } else if is_ascii_alnum(key[i]) {
        prefix_from(key, i + 1, acc.push(lower_char(key[i])))
    } else if acc.len() > 0 && acc.last() == '_' {
        prefix_from(key, i + 1, acc)
    } else {
        prefix_from(key, i + 1, acc.push('_'))
    }
}

/// `s` without leading underscores.
pub open spec fn trim_start_underscores(s: Seq<char>) -> Seq<char>
    decreases s.len(),
{
    if s.len() > 0 && s[0] == '_' {
        trim_start_underscores(s.subrange(1, s.len() as int))
    } else {
        s
    }
}

/// `s` without trailing underscores.
pub open spec fn trim_end_underscores(s: Seq<char>) -> Seq<char>
    decreases s.len(),
{
    if s.len() > 0 && s.last() == '_' {
        trim_end_underscores(s.drop_last())
    } else {
        s
    }
}

/// The readable part of a persisted crop's file name.
pub open spec fn spec_safe_crop_cache_prefix(key: Seq<char>) -> Seq<char> {
    trim_end_underscores(trim_start_underscores(prefix_from(key, 0, Seq::empty())))
}

fn is_ascii_alnum_exec(c: char) -> (r: bool)
    ensures
        r == is_ascii_alnum(c),
{
    ('0' <= c && c <= '9') || ('a' <= c && c <= 'z') || ('A' <= c && c <= 'Z')
}

/// The readable part of a persisted crop's file name: the key's letters and
/// digits in lower case, other runs as one `_`, at most 96 characters, with
/// no `_` at either end.
pub fn safe_crop_cache_prefix(key: &str) -> (r: String)
    ensures
        r@ == spec_safe_crop_cache_prefix(key@),
{
    let chars = chars_of(key);
    let mut prefix: Vec<char> = Vec::new();
    let mut i: usize = 0;
    while i < chars.len()
        invariant
            chars@ == key@,
            i <= chars@.len(),
            prefix@.len() <= 96,
            prefix_from(key@, 0, Seq::empty()) == prefix_from(key@, i as int, prefix@),
        ensures
            prefix@.len() <= 96,
            prefix_from(key@, 0, Seq::empty()) == prefix@,
        decreases chars@.len() - i,
    {
        if prefix.len() >= 96 {
            break;
        }
        let ch = chars[i];
        if is_ascii_alnum_exec(ch) {
            prefix.push(to_lower_char(ch));
        } else if !(prefix.len() > 0 && prefix[prefix.len() - 1] == '_') {
            prefix.push('_');
        }
        i = i + 1;
    }
    let ghost full = prefix@;
    assert(prefix_from(key@, 0, Seq::empty()) == full);
    let mut start: usize = 0;
    assert(full.subrange(0, full.len() as int) == full);
    while start < prefix.len() && prefix[start] == '_'
        invariant
            start <= prefix@.len(),
            prefix@ == full,
            trim_start_underscores(full) == trim_start_underscores(
                full.subrange(start as int, full.len() as int),
            ),
        decreases prefix@.len() - start,
    {
        assert(full.subrange(start + 1, full.len() as int) == full.subrange(
            start as int,
            full.len() as int,
        ).subrange(1, full.len() - start));
        start = start + 1;
    }
    let ghost mid = full.subrange(start as int, full.len() as int);
    assert(trim_start_underscores(full) == mid);
    let mut end: usize = prefix.len();
    while end > start && prefix[end - 1] == '_'
        invariant
            start <= end <= prefix@.len(),
            prefix@ == full,
            mid == full.subrange(start as int, full.len() as int),
            trim_end_underscores(mid) == trim_end_underscores(
                full.subrange(start as int, end as int),
            ),
        decreases end,
    {
        assert(full.subrange(start as int, end - 1) == full.subrange(
            start as int,
            end as int,
        ).drop_last());
        end = end - 1;
    }
    let mut out: Vec<char> = Vec::new();
    let mut k = start;
    while k < end
        invariant
            start <= k <= end <= prefix@.len(),
            prefix@ == full,
            out@ == full.subrange(start as int, k as int),
        decreases end - k,
    {
        out.push(prefix[k]);
        assert(full.subrange(start as int, k + 1) == full.subrange(start as int, k as int).push(
            full[k as int],
        ));
        k = k + 1;
    }
    string_from_chars(out.as_slice())
}

/// `root` joined with `name` as `Path::join` joins them: an absolute `name`
/// (starting with `/`) replaces `root`; otherwise a separator is put between
/// them unless `root` is empty or already ends with one.
pub open spec fn spec_join_path(root: Seq<char>, name: Seq<char>) -> Seq<char> {
    if name.len() > 0 && name[0] == '/' {
        name
    } else if root.len() == 0 || root.last() == '/' {
        root + name
    } else {
        root + "/"@ + name
    }
}

/// `root` joined with `name` as `Path::join` joins them.
pub fn join_path(root: &str, name: &str) -> (r: String)
    ensures
        r@ == spec_join_path(root@, name@),
{
    proof {
        reveal_strlit("/");
    }
    let name_chars = chars_of(name);
    if name_chars.len() > 0 && name_chars[0] == '/' {
        return string_from_chars(name_chars.as_slice());
    }
    let mut out = chars_of(root);
    if out.len() > 0 && out[out.len() - 1] != '/' {
        out.push('/');
        assert(out@ == root@ + "/"@);
    }
    push_str(&mut out, name);
    string_from_chars(out.as_slice())
}

/// The file a crop with cache key `key` and key hash `hash` is persisted to:
/// `<prefix>-<hash as 16 hex digits>.png` under `root`.
pub open spec fn spec_crop_cache_file(root: Seq<char>, key: Seq<char>, hash: u64) -> Seq<char> {
    spec_join_path(
        root,
        spec_safe_crop_cache_prefix(key) + "-"@ + hex_fixed(hash as nat, 16) + ".png"@,
    )
}

/// The persisted file of a crop, given the hash of its key.
pub fn crop_cache_file(root: &str, key: &str, hash: u64) -> (r: String)
    ensures
        r@ == spec_crop_cache_file(root@, key@, hash),
{
    let prefix = safe_crop_cache_prefix(key);
    let mut name = chars_of(prefix.as_str());
    push_str(&mut name, "-");
    push_hex_fixed(&mut name, hash, 16);
    push_str(&mut name, ".png");
    let name_str = string_from_chars(name.as_slice());
    join_path(root, name_str.as_str())
}

/// The writes std's `Hash::hash` for `str` makes into a `DefaultHasher`
/// whose writes so far are `state`: a function of the state and the string.
pub uninterp spec fn spec_str_hash_feed(state: Seq<Seq<u8>>, key: Seq<char>) -> Seq<Seq<u8>>;

/// std's `Hash::hash` for `str`, feeding `key` into a `DefaultHasher`. The
/// writes it makes are named by `spec_str_hash_feed`: equal strings hash
/// equally, so they depend on the string (and the hasher's state) alone.
#[verifier::external_body]
fn hash_str_into(key: &str, hasher: &mut DefaultHasher)
    ensures
        final(hasher)@ == spec_str_hash_feed(old(hasher)@, key@),
{
    key.hash(hasher);
}

/// The hash of a string slice by a fresh `DefaultHasher`. std makes every
/// `DefaultHasher::new()` the same (it is not seeded per process), so the
/// hash is a function of the string.
pub open spec fn spec_default_hash(key: Seq<char>) -> u64 {
    DefaultHasher::spec_finish(spec_str_hash_feed(Seq::empty(), key))
}

/// The hash of a string slice by a fresh `DefaultHasher`.
fn default_hash_of(key: &str) -> (r: u64)
    ensures
        r == spec_default_hash(key@),
{
    let mut hasher = DefaultHasher::new();
    hash_str_into(key, &mut hasher);
    hasher.finish()
}

/// The file a crop with cache key `key` is persisted to under `root`, named
/// after the key and its `DefaultHasher` hash, so that keys whose cleaned
/// name prefix is the same still get different files.
pub fn persistent_sub_region_cache_path(root: &str, key: &str) -> (r: String)
    ensures
        r@ == spec_crop_cache_file(root@, key@, spec_default_hash(key@)),
{
    let hash = default_hash_of(key);
    crop_cache_file(root, key, hash)
}

/// File extensions tried for a texture, in order.
pub open spec fn spec_extension_priority() -> Seq<Seq<char>> {
    seq![
        "blp"@,
        "BLP"@,
        "webp"@,
        "WEBP"@,
        "PNG"@,
        "png"@,
        "tga"@,
        "TGA"@,
        "jpg"@,
        "JPG"@,
    ]
}

/// File extensions tried for a texture, in order.
pub fn texture_extension_priority() -> (r: Vec<&'static str>)
    ensures
        r@.len() == spec_extension_priority().len(),
        forall|i: int| 0 <= i < r@.len() ==> #[trigger] r@[i]@ == spec_extension_priority()[i],
{
    let r = vec!["blp", "BLP", "webp", "WEBP", "PNG", "png", "tga", "TGA", "jpg", "JPG"];
    assert(r@.len() == 10);
    assert forall|i: int| 0 <= i < r@.len() implies #[trigger] r@[i]@
        == spec_extension_priority()[i] by {
        assert(r@[0] == "blp");
        assert(r@[1] == "BLP");
        assert(r@[2] == "webp");
        assert(r@[3] == "WEBP");
        assert(r@[4] == "PNG");
        assert(r@[5] == "png");
        assert(r@[6] == "tga");
        assert(r@[7] == "TGA");
        assert(r@[8] == "jpg");
        assert(r@[9] == "JPG");
    }
    r
}

// ---------------------------------------------------------------------------
// Resolution plans
// ---------------------------------------------------------------------------

/// One place to look for a texture file, in the order they are tried.
#[derive(Debug, Clone, PartialEq, Eq)]
pub enum ResolveStep {
    /// The path under a base directory: with each extension of
    /// `texture_extension_priority`, then as written, then matched
    /// case-insensitively component by component.
    InDir { base: String, path: String },
    /// The CASC listfile entry for the path, extracted to disk.
    Casc { path: String },
    /// The extracted Blizzard interface art dump.
    BlizzardArt { path: String },
}

/// What a resolution step names, as character sequences.
pub enum StepView {
    InDir(Seq<char>, Seq<char>),
    Casc(Seq<char>),
    BlizzardArt(Seq<char>),
}

impl View for ResolveStep {
    type V = StepView;

    open spec fn view(&self) -> StepView {
        match self {
            ResolveStep::InDir { base, path } => StepView::InDir(base@, path@),
            ResolveStep::Casc { path } => StepView::Casc(path@),
            ResolveStep::BlizzardArt { path } => StepView::BlizzardArt(path@),
        }
    }
}

/// The steps that resolve a normalized path: its addon-relative part in each
/// addon directory; then, when Blizzard art is forbidden, CASC only if CASC
/// media is allowed; otherwise (for a Mists client, legacy paper-doll slots
/// first in the art dump) CASC, then the art dump.
pub open spec fn spec_resolve_plan(
    addons: Seq<Seq<char>>,
    p: Seq<char>,
    allow_blizzard: bool,
    casc_media: bool,
    client_mists: bool,
) -> Seq<StepView> {
    let addon_steps = if p.len() >= 17 && eq_ic(p.subrange(0, 17), "Interface/AddOns/"@) {
        Seq::new(addons.len(), |i: int| StepView::InDir(addons[i], p.subrange(17, p.len() as int)))
    } else {
        Seq::empty()
    };
    let rest = if !allow_blizzard {
        if casc_media {
            seq![StepView::Casc(p)]
        } else {
            Seq::empty()
        }
    } else if client_mists && has_prefix(lower_seq(p), "interface/paperdoll/ui-paperdoll-slot-"@) {
        seq![StepView::BlizzardArt(p), StepView::Casc(p), StepView::BlizzardArt(p)]
    } else {
        seq![StepView::Casc(p), StepView::BlizzardArt(p)]
    };
    addon_steps + rest
}

/// Copies a string slice into a `String`.
fn owned(s: &str) -> (r: String)
    ensures
        r@ == s@,
{
    let v = chars_of(s);
    string_from_chars(v.as_slice())
}

/// Appends `steps` to `out`, keeping track of the views.
fn push_step(out: &mut Vec<ResolveStep>, step: ResolveStep)
    ensures
        final(out)@.len() == old(out)@.len() + 1,
        forall|i: int| 0 <= i < old(out)@.len() ==> #[trigger] final(out)@[i]@ == old(out)@[i]@,
        final(out)@[old(out)@.len() as int]@ == step@,
{
    out.push(step);
}

/// The candidate files for `path` under `base`: with each extension in
/// order, then as written; none when the path is not a safe relative path.
pub open spec fn spec_in_dir_candidates(base: Seq<char>, path: Seq<char>) -> Seq<Seq<char>> {
    if !spec_is_safe_relative_path(path) {
        Seq::empty()
    } else {
        Seq::new(
            spec_extension_priority().len(),
            |i: int| spec_join_path(base, path + "."@ + spec_extension_priority()[i]),
        ).push(spec_join_path(base, path))
    }
}

/// The candidate files for `path` under `base`, in the order they are tried.
pub fn in_dir_candidates(base: &str, path: &str) -> (r: Vec<String>)
    ensures
        r@.len() == spec_in_dir_candidates(base@, path@).len(),
        forall|i: int| 0 <= i < r@.len() ==> #[trigger] r@[i]@ == spec_in_dir_candidates(
            base@,
            path@,
        )[i],
{
    let mut out: Vec<String> = Vec::new();
    if !is_safe_relative_path(path) {
        return out;
    }
    let exts = texture_extension_priority();
    let mut i: usize = 0;
    while i < exts.len()
        invariant
            exts@.len() == spec_extension_priority().len(),
            forall|k: int| 0 <= k < exts@.len() ==> #[trigger] exts@[k]@
                == spec_extension_priority()[k],
            i <= exts@.len(),
            out@.len() == i,
            forall|k: int| 0 <= k < i ==> #[trigger] out@[k]@ == spec_join_path(
                base@,
                path@ + "."@ + spec_extension_priority()[k],
            ),
        decreases exts@.len() - i,
    {
        let mut name = chars_of(path);
        push_str(&mut name, ".");
        push_str(&mut name, exts[i]);
        let name_str = string_from_chars(name.as_slice());
        out.push(join_path(base, name_str.as_str()));
        i = i + 1;
    }
    out.push(join_path(base, path));
    out
}

/// The names tried for a file in a directory scanned case-insensitively:
/// with each extension in order, then as written.
pub fn case_insensitive_file_names(name: &str) -> (r: Vec<String>)
    ensures
        r@.len() == spec_extension_priority().len() + 1,
        forall|i: int| 0 <= i < spec_extension_priority().len() ==> #[trigger] r@[i]@ == name@
            + "."@ + spec_extension_priority()[i],
        r@[spec_extension_priority().len() as int]@ == name@,
{
    let exts = texture_extension_priority();
    let mut out: Vec<String> = Vec::new();
    let mut i: usize = 0;
    while i < exts.len()
        invariant
            exts@.len() == spec_extension_priority().len(),
            forall|k: int| 0 <= k < exts@.len() ==> #[trigger] exts@[k]@
                == spec_extension_priority()[k],
            i <= exts@.len(),
            out@.len() == i,
            forall|k: int| 0 <= k < i ==> #[trigger] out@[k]@ == name@ + "."@
                + spec_extension_priority()[k],
        decreases exts@.len() - i,
    {
        let mut s = chars_of(name);
        push_str(&mut s, ".");
        push_str(&mut s, exts[i]);
        out.push(string_from_chars(s.as_slice()));
        i = i + 1;
    }
    out.push(owned(name));
    out
}

/// The paths tried in the extracted interface art: the path, then (when it
/// does not start with `interface/` in any case) the path under `Interface/`.
pub fn blizzard_art_candidates(normalized_path: &str) -> (r: Vec<String>)
    ensures
        r@.len() == (if has_prefix(lower_seq(normalized_path@), "interface/"@) {
            1int
        } else {
            2
        }),
        r@[0]@ == normalized_path@,
        !has_prefix(lower_seq(normalized_path@), "interface/"@) ==> r@[1]@ == "Interface/"@
            + normalized_path@,
{
    let mut out: Vec<String> = Vec::new();
    out.push(owned(normalized_path));
    let lower = to_ascii_lowercase(normalized_path);
    if !starts_with_chars(lower.as_slice(), "interface/") {
        let mut s = chars_of("Interface/");
        push_str(&mut s, normalized_path);
        out.push(string_from_chars(s.as_slice()));
    }
    out
}

// ---------------------------------------------------------------------------
// The texture manager
// ---------------------------------------------------------------------------

/// Addon directories and the caches of decoded textures, of texture sizes
/// and of cropped regions, each keyed by normalized path (crops by
/// `path#x_y_w_h` or by crop request).
#[derive(Debug)]
pub struct TextureManager {
    pub addons_paths: Vec<String>,
    pub cache: Vec<(String, TextureData)>,
    pub size_cache: Vec<(String, (u32, u32))>,
    pub sub_cache: Vec<(String, TextureData)>,
}

/// The cache key of the `width` x `height` crop at `(x, y)` of a texture.
pub open spec fn spec_sub_region_key(normalized: Seq<char>, x: u32, y: u32, width: u32, height: u32) -> Seq<char> {
    normalized + "#"@ + decimal(x as nat) + "_"@ + decimal(y as nat) + "_"@ + decimal(width as nat)
        + "_"@ + decimal(height as nat)
}

/// The cache key of the `width` x `height` crop at `(x, y)` of a texture.
pub fn sub_region_key(wow_path: &str, x: u32, y: u32, width: u32, height: u32) -> (r: String)
    ensures
        r@ == spec_sub_region_key(spec_normalize_wow_path(wow_path@), x, y, width, height),
{
    let normalized = normalize_wow_path(wow_path);
    let mut out = chars_of(normalized.as_str());
    push_str(&mut out, "#");
    push_decimal(&mut out, x as u64);
    push_str(&mut out, "_");
    push_decimal(&mut out, y as u64);
    push_str(&mut out, "_");
    push_decimal(&mut out, width as u64);
    push_str(&mut out, "_");
    push_decimal(&mut out, height as u64);
    string_from_chars(out.as_slice())
}

/// A copy of texture data.
pub fn copy_texture(data: &TextureData) -> (r: TextureData)
    ensures
        r.width == data.width,
        r.height == data.height,
        r.pixels@ == data.pixels@,
{
    let mut pixels: Vec<u8> = Vec::new();
    let mut i: usize = 0;
    while i < data.pixels.len()
        invariant
            i <= data.pixels@.len(),
            pixels@ == data.pixels@.subrange(0, i as int),
        decreases data.pixels@.len() - i,
    {
        pixels.push(data.pixels[i]);
        i = i + 1;
    }
    assert(data.pixels@.subrange(0, data.pixels@.len() as int) == data.pixels@);
    TextureData { width: data.width, height: data.height, pixels }
}

impl TextureManager {
    /// Keys are distinct in every cache and the cached textures are well formed.
    pub open spec fn wf(&self) -> bool {
        &&& keys_distinct(self.cache@)
        &&& keys_distinct(self.size_cache@)
        &&& keys_distinct(self.sub_cache@)
        &&& forall|i: int| 0 <= i < self.cache@.len() ==> #[trigger] self.cache@[i].1.wf()
    }

    /// The size known for a texture: its decoded data first, then the size cache.
    pub open spec fn spec_texture_size(&self, wow_path: Seq<char>) -> Option<(u32, u32)> {
        let n = spec_normalize_wow_path(wow_path);
        match lookup(self.cache@, n) {
            Some(d) => Some((d.width, d.height)),
            None => lookup(self.size_cache@, n),
        }
    }

    /// A manager with no addon directory and empty caches.
    pub fn new() -> (m: Self)
        ensures
            m.wf(),
            m.addons_paths@.len() == 0,
            m.cache@.len() == 0,
            m.size_cache@.len() == 0,
            m.sub_cache@.len() == 0,
    {
        TextureManager {
            addons_paths: Vec::new(),
            cache: Vec::new(),
            size_cache: Vec::new(),
            sub_cache: Vec::new(),
        }
    }

    /// The manager with one more addon directory, searched after the others.
    pub fn with_addons_path(self, path: &str) -> (m: Self)
        ensures
            m.addons_paths@.len() == self.addons_paths@.len() + 1,
            forall|i: int| 0 <= i < self.addons_paths@.len() ==> #[trigger] m.addons_paths@[i]
                == self.addons_paths@[i],
            m.addons_paths@[self.addons_paths@.len() as int]@ == path@,
            m.cache == self.cache,
            m.size_cache == self.size_cache,
            m.sub_cache == self.sub_cache,
    {
        let mut m = self;
        m.addons_paths.push(owned(path));
        m
    }

    /// Number of entries in the texture cache.
    pub fn cache_len(&self) -> (r: usize)
        ensures
            r == self.cache@.len(),
    {
        self.cache.len()
    }

    /// The paths of the cached textures.
    pub fn cached_paths(&self) -> (r: Vec<&str>)
        ensures
            r@.len() == self.cache@.len(),
            forall|i: int| 0 <= i < r@.len() ==> #[trigger] r@[i]@ == self.cache@[i].0@,
    {
        let mut out: Vec<&str> = Vec::new();
        let mut i: usize = 0;
        while i < self.cache.len()
            invariant
                i <= self.cache@.len(),
                out@.len() == i,
                forall|k: int| 0 <= k < i ==> #[trigger] out@[k]@ == self.cache@[k].0@,
            decreases self.cache@.len() - i,
        {
            out.push(self.cache[i].0.as_str());
            i = i + 1;
        }
        out
    }

    /// The dimensions of a texture, from its decoded data or the size cache.
    pub fn get_texture_size(&self, wow_path: &str) -> (r: Option<(u32, u32)>)
        ensures
            r == self.spec_texture_size(wow_path@),
    {
        let normalized = normalize_wow_path(wow_path);
        match get_ref(&self.cache, normalized.as_str()) {
            Some(d) => Some((d.width, d.height)),
            None => match get_ref(&self.size_cache, normalized.as_str()) {
                Some(dims) => Some(*dims),
                None => None,
            },
        }
    }

    /// The dimensions of a texture; when none are known, `read_dimensions`
    /// is asked with the normalized path and what it finds is cached.
    pub fn get_or_load_texture_size(
        &mut self,
        wow_path: &str,
        read_dimensions: impl FnOnce(&str) -> Option<(u32, u32)>,
    ) -> (r: Option<(u32, u32)>)
        requires
            old(self).wf(),
            forall|s: &str| read_dimensions.requires((s,)),
        ensures
            final(self).wf(),
            final(self).cache == old(self).cache,
            final(self).sub_cache == old(self).sub_cache,
            final(self).addons_paths == old(self).addons_paths,
            match old(self).spec_texture_size(wow_path@) {
                Some(d) => r == Some(d) && final(self).size_cache == old(self).size_cache,
                None => (exists|s: &str|
                    s@ == spec_normalize_wow_path(wow_path@) && call_ensures(
                        read_dimensions,
                        (s,),
                        r,
                    )) && match r {
                    Some(d) => stored_under(
                        final(self).size_cache@,
                        old(self).size_cache@,
                        spec_normalize_wow_path(wow_path@),
                        d,
                    ),
                    None => final(self).size_cache == old(self).size_cache,
                },
            },
    {
        match self.get_texture_size(wow_path) {
            Some(dims) => Some(dims),
            None => {
                let normalized = normalize_wow_path(wow_path);
                let dims = read_dimensions(normalized.as_str());
                match dims {
                    Some(d) => {
                        store(&mut self.size_cache, normalized, d);
                        Some(d)
                    },
                    None => None,
                }
            },
        }
    }

    /// The `width` x `height` crop at `(x, y)` of a decoded texture, cached
    /// under `path#x_y_w_h`: a cached crop is returned as is; otherwise the
    /// crop is cut from the texture's decoded data, if that is cached and
    /// holds the window; a crop cut here holds exactly `width * height`
    /// pixels. What is returned stays cached under its key, so an identical
    /// call gives it back. Loading the texture and the disk cache of crops
    /// are up to the caller.
    pub fn load_sub_region(&mut self, wow_path: &str, x: u32, y: u32, width: u32, height: u32) -> (r:
        Option<&TextureData>)
        requires
            old(self).wf(),
        ensures
            final(self).wf(),
            final(self).cache == old(self).cache,
            final(self).size_cache == old(self).size_cache,
            final(self).addons_paths == old(self).addons_paths,
            ({
                let key = spec_sub_region_key(spec_normalize_wow_path(wow_path@), x, y, width, height);
                match lookup(old(self).sub_cache@, key) {
                    Some(t) => r matches Some(rt) && *rt == t && final(self).sub_cache
                        == old(self).sub_cache,
                    None => match lookup(old(self).cache@, spec_normalize_wow_path(wow_path@)) {
                        None => r is None && final(self).sub_cache == old(self).sub_cache,
                        Some(base) => match spec_extract(base, x as int, y as int, width as int, height as int) {
                            None => r is None && final(self).sub_cache == old(self).sub_cache,
                            Some(px) => r matches Some(rt) && rt.width == width && rt.height
                                == height && rt.pixels@ == px && rt.wf() && stored_under(
                                final(self).sub_cache@,
                                old(self).sub_cache@,
                                key,
                                *rt,
                            ),
                        },
                    },
                }
            }),
            r matches Some(rt) ==> lookup(
                final(self).sub_cache@,
                spec_sub_region_key(spec_normalize_wow_path(wow_path@), x, y, width, height),
            ) == Some(*rt),
    {
        let normalized = normalize_wow_path(wow_path);
        let key = sub_region_key(wow_path, x, y, width, height);
        proof {
            lemma_key_index(self.sub_cache@, key@);
            lemma_key_index(self.cache@, normalized@);
        }
        match find_key(&self.sub_cache, key.as_str()) {
            Some(i) => {
                return Some(&self.sub_cache[i].1);
            },
            None => {},
        }
        let sub = match find_key(&self.cache, normalized.as_str()) {
            Some(i) => {
                assert(self.cache@[i as int].1.wf());
                extract_sub_region(&self.cache[i].1, x, y, width, height)
            },
            None => None,
        };
        match sub {
            Some(data) => {
                let stored_key = owned(key.as_str());
                store(&mut self.sub_cache, stored_key, data);
                proof {
                    lemma_key_index(self.sub_cache@, key@);
                }
                match find_key(&self.sub_cache, key.as_str()) {
                    Some(i) => Some(&self.sub_cache[i].1),
                    None => None,
                }
            },
            None => None,
        }
    }

    /// The cached crop for a crop request (`base@crop:...`), if any.
    pub fn get_cached_crop_request(&self, crop_request_path: &str) -> (r: Option<&TextureData>)
        ensures
            match lookup(self.sub_cache@, spec_crop_request_key(crop_request_path@)) {
                Some(t) => r matches Some(rt) && *rt == t,
                None => r is None,
            },
    {
        let key = normalize_crop_request_key(crop_request_path);
        get_ref(&self.sub_cache, key.as_str())
    }

    /// Caches a copy of `data` for a crop request and returns the cached copy.
    pub fn cache_crop_request_alias(&mut self, crop_request_path: &str, data: &TextureData) -> (r:
        Option<&TextureData>)
        requires
            old(self).wf(),
        ensures
            final(self).wf(),
            final(self).cache == old(self).cache,
            final(self).size_cache == old(self).size_cache,
            final(self).addons_paths == old(self).addons_paths,
            r matches Some(rt) && rt.width == data.width && rt.height == data.height
                && rt.pixels@ == data.pixels@ && stored_under(
                final(self).sub_cache@,
                old(self).sub_cache@,
                spec_crop_request_key(crop_request_path@),
                *rt,
            ),
    {
        let key = normalize_crop_request_key(crop_request_path);
        let copy = copy_texture(data);
        let stored_key = owned(key.as_str());
        store(&mut self.sub_cache, stored_key, copy);
        proof {
            lemma_key_index(self.sub_cache@, key@);
        }
        match find_key(&self.sub_cache, key.as_str()) {
            Some(i) => Some(&self.sub_cache[i].1),
            None => None,
        }
    }

    /// Caches a crop under its cache key (`path#x_y_w_h`), as when it is
    /// read back from the persistent crop cache, and returns the cached crop.
    pub fn cache_sub_region(&mut self, key: &str, data: TextureData) -> (r: Option<&TextureData>)
        requires
            old(self).wf(),
        ensures
            final(self).wf(),
            final(self).cache == old(self).cache,
            final(self).size_cache == old(self).size_cache,
            final(self).addons_paths == old(self).addons_paths,
            r matches Some(rt) && *rt == data,
            stored_under(final(self).sub_cache@, old(self).sub_cache@, key@, data),
    {
        let ghost d = data;
        store(&mut self.sub_cache, owned(key), data);
        proof {
            lemma_key_index(self.sub_cache@, key@);
        }
        match find_key(&self.sub_cache, key) {
            Some(i) => Some(&self.sub_cache[i].1),
            None => None,
        }
    }

    /// Caches a decoded texture (and its size) under its normalized path, as
    /// loading a texture does once it is decoded.
    pub fn cache_texture(&mut self, wow_path: &str, data: TextureData)
        requires
            old(self).wf(),
            data.wf(),
        ensures
            final(self).wf(),
            stored_under(
                final(self).cache@,
                old(self).cache@,
                spec_normalize_wow_path(wow_path@),
                data,
            ),
            stored_under(
                final(self).size_cache@,
                old(self).size_cache@,
                spec_normalize_wow_path(wow_path@),
                (data.width, data.height),
            ),
            final(self).sub_cache == old(self).sub_cache,
            final(self).addons_paths == old(self).addons_paths,
    {
        let normalized = normalize_wow_path(wow_path);
        let size_key = owned(normalized.as_str());
        store(&mut self.size_cache, size_key, (data.width, data.height));
        let ghost before = self.cache@;
        store(&mut self.cache, normalized, data);
        proof {
            assert forall|i: int| 0 <= i < self.cache@.len() implies #[trigger] self.cache@[i].1.wf() by {
                lemma_key_index(self.cache@, self.cache@[i].0@);
                lemma_key_index(before, self.cache@[i].0@);
                crate::keyed::lemma_key_index_unique(self.cache@, self.cache@[i].0@, i);
                if self.cache@[i].0@ != spec_normalize_wow_path(wow_path@) {
                    assert(lookup(self.cache@, self.cache@[i].0@) == lookup(before, self.cache@[i].0@));
                }
            }
        }
    }

    /// Caches decoded texture data (and its size) under its normalized path,
    /// as a test sets up a texture without decoding one.
    pub fn insert_test_texture(&mut self, wow_path: &str, data: TextureData)
        requires
            old(self).wf(),
            data.wf(),
        ensures
            final(self).wf(),
            stored_under(
                final(self).cache@,
                old(self).cache@,
                spec_normalize_wow_path(wow_path@),
                data,
            ),
            stored_under(
                final(self).size_cache@,
                old(self).size_cache@,
                spec_normalize_wow_path(wow_path@),
                (data.width, data.height),
            ),
            final(self).sub_cache == old(self).sub_cache,
            final(self).addons_paths == old(self).addons_paths,
    {
        self.cache_texture(wow_path, data);
    }

    /// Where to look for a normalized texture path, in order (see
    /// `spec_resolve_plan`).
    pub fn resolve_path_with_blizzard_fallback(
        &self,
        normalized_path: &str,
        allow_blizzard_fallback: bool,
        casc_media_allowed: bool,
        client_mists: bool,
    ) -> (r: Vec<ResolveStep>)
        ensures
            r@.len() == spec_resolve_plan(
                Seq::new(self.addons_paths@.len(), |i: int| self.addons_paths@[i]@),
                normalized_path@,
                allow_blizzard_fallback,
                casc_media_allowed,
                client_mists,
            ).len(),
            forall|i: int| 0 <= i < r@.len() ==> #[trigger] r@[i]@ == spec_resolve_plan(
                Seq::new(self.addons_paths@.len(), |i: int| self.addons_paths@[i]@),
                normalized_path@,
                allow_blizzard_fallback,
                casc_media_allowed,
                client_mists,
            )[i],
    {
        let ghost addons = Seq::new(self.addons_paths@.len(), |i: int| self.addons_paths@[i]@);
        let ghost plan = spec_resolve_plan(
            addons,
            normalized_path@,
            allow_blizzard_fallback,
            casc_media_allowed,
            client_mists,
        );
        let mut out: Vec<ResolveStep> = Vec::new();
        let mut k: usize = 0;
        match strip_addons_prefix(normalized_path) {
            Some(rel) => {
                while k < self.addons_paths.len()
                    invariant
                        k <= self.addons_paths@.len(),
                        out@.len() == k,
                        rel@ == normalized_path@.subrange(17, normalized_path@.len() as int),
                        forall|q: int| 0 <= q < k ==> #[trigger] out@[q]@ == StepView::InDir(
                            self.addons_paths@[q]@,
                            rel@,
                        ),
                    decreases self.addons_paths@.len() - k,
                {
                    push_step(
                        &mut out,
                        ResolveStep::InDir { base: owned(self.addons_paths[k].as_str()), path: owned(rel) },
                    );
                    k = k + 1;
                }
            },
            None => {},
        }
        let ghost n0 = out@.len();
        if !allow_blizzard_fallback {
            if casc_media_allowed {
                push_step(&mut out, ResolveStep::Casc { path: owned(normalized_path) });
            }
        } else {
            if client_mists && is_legacy_paperdoll_slot_path(normalized_path) {
                push_step(&mut out, ResolveStep::BlizzardArt { path: owned(normalized_path) });
            }
            push_step(&mut out, ResolveStep::Casc { path: owned(normalized_path) });
            push_step(&mut out, ResolveStep::BlizzardArt { path: owned(normalized_path) });
        }
        proof {
            assert(out@.len() == plan.len());
            assert forall|i: int| 0 <= i < out@.len() implies #[trigger] out@[i]@ == plan[i] by {}
        }
        out
    }

    /// Where to look for a normalized texture path, given the values of the
    /// variables that skip Blizzard UI and allow CASC media.
    pub fn resolve_path(
        &self,
        normalized_path: &str,
        skip_blizzard_ui: Option<&str>,
        allow_casc_media: Option<&str>,
        client_mists: bool,
    ) -> (r: Vec<ResolveStep>)
        ensures
            r@.len() == spec_resolve_plan(
                Seq::new(self.addons_paths@.len(), |i: int| self.addons_paths@[i]@),
                normalized_path@,
                !switch_on(
                    match skip_blizzard_ui {
                        Some(v) => Some(v@),
                        None => None,
                    },
                ),
                switch_on(
                    match allow_casc_media {
                        Some(v) => Some(v@),
                        None => None,
                    },
                ),
                client_mists,
            ).len(),
            forall|i: int| 0 <= i < r@.len() ==> #[trigger] r@[i]@ == spec_resolve_plan(
                Seq::new(self.addons_paths@.len(), |i: int| self.addons_paths@[i]@),
                normalized_path@,
                !switch_on(
                    match skip_blizzard_ui {
                        Some(v) => Some(v@),
                        None => None,
                    },
                ),
                switch_on(
                    match allow_casc_media {
                        Some(v) => Some(v@),
                        None => None,
                    },
                ),
                client_mists,
            )[i],
    {
        let allow = blizzard_fallback_allowed_for(skip_blizzard_ui);
        let casc = casc_media_fallback_allowed_for(allow_casc_media);
        self.resolve_path_with_blizzard_fallback(normalized_path, allow, casc, client_mists)
    }
}

/// Where a path is looked up, in order: a path under `Interface/AddOns/`
/// (in any case) is first looked up below each addon directory in turn, as
/// the part after that prefix; then, when Blizzard fallback is forbidden,
/// CASC only if CASC media is allowed and never the art dump; when it is
/// allowed, CASC and then the art dump, which is always the last resort.
pub proof fn lemma_resolve_plan_order(
    addons: Seq<Seq<char>>,
    p: Seq<char>,
    allow_blizzard: bool,
    casc_media: bool,
    client_mists: bool,
)
    ensures
        ({
            let plan = spec_resolve_plan(addons, p, allow_blizzard, casc_media, client_mists);
            let under_addons = p.len() >= 17 && eq_ic(p.subrange(0, 17), "Interface/AddOns/"@);
            let n: int = if under_addons {
                addons.len() as int
            } else {
                0
            };
            &&& n <= plan.len()
            &&& forall|i: int| 0 <= i < n ==> #[trigger] plan[i] == StepView::InDir(
                addons[i],
                p.subrange(17, p.len() as int),
            )
            &&& !allow_blizzard ==> plan.subrange(n, plan.len() as int) == (if casc_media {
                seq![StepView::Casc(p)]
            } else {
                Seq::<StepView>::empty()
            })
            &&& allow_blizzard && !(client_mists && has_prefix(
                lower_seq(p),
                "interface/paperdoll/ui-paperdoll-slot-"@,
            )) ==> plan.subrange(n, plan.len() as int) == seq![
                StepView::Casc(p),
                StepView::BlizzardArt(p),
            ]
            &&& allow_blizzard ==> plan.len() > n && plan.last() == StepView::BlizzardArt(p)
        }),
{
    let plan = spec_resolve_plan(addons, p, allow_blizzard, casc_media, client_mists);
    let under_addons = p.len() >= 17 && eq_ic(p.subrange(0, 17), "Interface/AddOns/"@);
    let n: int = if under_addons {
        addons.len() as int
    } else {
        0
    };
    let addon_steps = if under_addons {
        Seq::new(addons.len(), |i: int| StepView::InDir(addons[i], p.subrange(17, p.len() as int)))
    } else {
        Seq::empty()
    };
    assert(addon_steps.len() == n);
    assert(plan.subrange(n, plan.len() as int) == plan.subrange(
        addon_steps.len() as int,
        plan.len() as int,
    ));
}

/// A legacy paper-doll slot path (`Interface/PaperDoll/UI-PaperDoll-Slot-*`,
/// in any case) lies outside `Interface/AddOns/`, so no addon directory is
/// searched for it. With Blizzard fallback allowed, a Mists client looks in
/// the art dump first, then CASC, then the art dump again; any other client
/// looks in CASC, then the art dump.
pub proof fn lemma_mists_paperdoll_slots_try_legacy_art_first(
    addons: Seq<Seq<char>>,
    p: Seq<char>,
    casc_media: bool,
)
    requires
        has_prefix(lower_seq(p), "interface/paperdoll/ui-paperdoll-slot-"@),
    ensures
        spec_resolve_plan(addons, p, true, casc_media, true) == seq![
            StepView::BlizzardArt(p),
            StepView::Casc(p),
            StepView::BlizzardArt(p),
        ],
        spec_resolve_plan(addons, p, true, casc_media, false) == seq![
            StepView::Casc(p),
            StepView::BlizzardArt(p),
        ],
{
    reveal_strlit("interface/paperdoll/ui-paperdoll-slot-");
    reveal_strlit("Interface/AddOns/");
    let slot = "interface/paperdoll/ui-paperdoll-slot-"@;
    assert(lower_seq(p).subrange(0, slot.len() as int)[10] == slot[10]);
    assert(lower_char(p[10]) == 'p');
    if p.len() >= 17 {
        assert(p.subrange(0, 17)[10] == p[10]);
        assert(lower_char("Interface/AddOns/"@[10]) == 'a');
        assert(!eq_ic(p.subrange(0, 17), "Interface/AddOns/"@));
    }
    assert(spec_resolve_plan(addons, p, true, casc_media, true) =~= seq![
        StepView::BlizzardArt(p),
        StepView::Casc(p),
        StepView::BlizzardArt(p),
    ]);
    assert(spec_resolve_plan(addons, p, true, casc_media, false) =~= seq![
        StepView::Casc(p),
        StepView::BlizzardArt(p),
    ]);
}

/// A texture cached with `insert_test_texture` reports its dimensions, and
/// a crop cached with `cache_crop_request_alias` is what
/// `get_cached_crop_request` gives back for that request.
pub proof fn lemma_cache_reads_back_writes(
    before: TextureManager,
    after: TextureManager,
    wow_path: Seq<char>,
    data: TextureData,
)
    requires
        stored_under(after.cache@, before.cache@, spec_normalize_wow_path(wow_path), data),
    ensures
        after.spec_texture_size(wow_path) == Some((data.width, data.height)),
{
}

/// What `get_cached_crop_request` gives back for a crop request after
/// `cache_crop_request_alias` stored `data` for it.
pub proof fn lemma_crop_alias_reads_back(before: Seq<(String, TextureData)>, after: Seq<(String, TextureData)>, request: Seq<char>, data: TextureData)
    requires
        stored_under(after, before, spec_crop_request_key(request), data),
    ensures
        lookup(after, spec_crop_request_key(request)) == Some(data),
        forall|other: Seq<char>|
            spec_crop_request_key(other) != spec_crop_request_key(request) ==> #[trigger] lookup(
                after,
                spec_crop_request_key(other),
            ) == lookup(before, spec_crop_request_key(other)),
{
}

} // verus!
