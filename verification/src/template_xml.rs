//! The parts of parsed WoW UI XML that templates are made of, and the
//! comma-separated name lists (`inherits`, `mixin`) they carry.

use vstd::prelude::*;
use crate::text::{chars_of, string_from_chars};

verus! {

/// A `<KeyValue>`.
#[derive(Debug, Clone, PartialEq, Eq)]
pub struct KeyValueXml {
    pub key: String,
    pub value: String,
    pub value_type: Option<String>,
}

/// The `<Scripts>` handlers that decide lifecycle flags.
#[derive(Debug, Clone, PartialEq, Eq)]
pub struct ScriptsXml {
    pub on_load: Vec<String>,
    pub on_show: Vec<String>,
}

/// A `<FontString>`.
#[derive(Debug, Clone, PartialEq, Eq)]
pub struct FontStringXml {
    pub name: Option<String>,
    pub parent_key: Option<String>,
    pub inherits: Option<String>,
    pub mixin: Option<String>,
}

/// A `<Texture>` (its non-geometric attributes).
#[derive(Debug, Clone, PartialEq, Eq)]
pub struct TextureXml {
    pub name: Option<String>,
    pub parent_key: Option<String>,
    pub parent_array: Option<String>,
    pub is_virtual: Option<bool>,
    pub inherits: Option<String>,
    pub mixin: Option<String>,
    pub file: Option<String>,
    pub atlas: Option<String>,
    pub use_atlas_size: Option<bool>,
    pub horiz_tile: Option<bool>,
    pub vert_tile: Option<bool>,
    pub h_wrap_mode: Option<String>,
    pub v_wrap_mode: Option<String>,
    pub hidden: Option<bool>,
    pub set_all_points: Option<bool>,
    pub alpha_mode: Option<String>,
    pub blend_mode: Option<String>,
    pub key_values: Option<Vec<KeyValueXml>>,
    pub animations: Option<Vec<AnimationGroupXml>>,
    pub scripts: Option<ScriptsXml>,
    pub masked_textures: Option<Vec<MaskedTextureXml>>,
}

/// A `<MaskedTexture>` of a mask texture: the child it masks.
#[derive(Debug, Clone, PartialEq, Eq)]
pub struct MaskedTextureXml {
    pub child_key: Option<String>,
}

/// An `<AnimationGroup>` (its template attributes).
#[derive(Debug, Clone, PartialEq, Eq)]
pub struct AnimationGroupXml {
    pub inherits: Option<String>,
    pub mixin: Option<String>,
}

/// An element of a `<Layer>`.
#[derive(Debug, Clone, PartialEq, Eq)]
pub enum LayerElement {
    Texture(TextureXml),
    FontString(FontStringXml),
}

/// A `<Layer>`.
#[derive(Debug, Clone, PartialEq, Eq)]
pub struct LayerXml {
    pub level: Option<String>,
    pub elements: Vec<LayerElement>,
}

/// A child element of a frame.
#[derive(Debug, PartialEq, Eq)]
pub enum FrameChildElement {
    Frame(FrameXml),
    Button(FrameXml),
    Slider(FrameXml),
    ButtonText(FontStringXml),
    Layers(Vec<LayerXml>),
}

/// A `<Frame>` (or any frame-like widget).
#[derive(Debug, PartialEq, Eq)]
pub struct FrameXml {
    pub name: Option<String>,
    pub parent_key: Option<String>,
    pub inherits: Option<String>,
    pub mixin: Option<String>,
    pub is_virtual: Option<bool>,
    pub hidden: Option<bool>,
    pub set_all_points: Option<bool>,
    pub children: Vec<FrameChildElement>,
    pub key_values: Vec<KeyValueXml>,
    pub scripts: Option<ScriptsXml>,
}

impl FrameXml {
    /// A frame with no attribute set.
    pub fn empty() -> (r: Self)
        ensures
            r.name is None,
            r.parent_key is None,
            r.inherits is None,
            r.mixin is None,
            r.is_virtual is None,
            r.hidden is None,
            r.set_all_points is None,
            r.children@.len() == 0,
            r.key_values@.len() == 0,
            r.scripts is None,
    {
        FrameXml {
            name: None,
            parent_key: None,
            inherits: None,
            mixin: None,
            is_virtual: None,
            hidden: None,
            set_all_points: None,
            children: Vec::new(),
            key_values: Vec::new(),
            scripts: None,
        }
    }
}

impl FontStringXml {
    /// A font string with no attribute set.
    pub fn empty() -> (r: Self)
        ensures
            r.name is None,
            r.parent_key is None,
            r.inherits is None,
            r.mixin is None,
    {
        FontStringXml { name: None, parent_key: None, inherits: None, mixin: None }
    }
}

impl TextureXml {
    /// A texture with no attribute set.
    pub fn empty() -> (r: Self)
        ensures
            r.name is None,
            r.parent_key is None,
            r.parent_array is None,
            r.is_virtual is None,
            r.inherits is None,
            r.mixin is None,
            r.file is None,
            r.atlas is None,
            r.use_atlas_size is None,
            r.horiz_tile is None,
            r.vert_tile is None,
            r.h_wrap_mode is None,
            r.v_wrap_mode is None,
            r.hidden is None,
            r.set_all_points is None,
            r.alpha_mode is None,
            r.blend_mode is None,
            r.key_values is None,
            r.animations is None,
            r.scripts is None,
            r.masked_textures is None,
    {
        TextureXml {
            name: None,
            parent_key: None,
            parent_array: None,
            is_virtual: None,
            inherits: None,
            mixin: None,
            file: None,
            atlas: None,
            use_atlas_size: None,
            horiz_tile: None,
            vert_tile: None,
            h_wrap_mode: None,
            v_wrap_mode: None,
            hidden: None,
            set_all_points: None,
            alpha_mode: None,
            blend_mode: None,
            key_values: None,
            animations: None,
            scripts: None,
            masked_textures: None,
        }
    }
}

/// A copy of a string.
pub fn copy_string(s: &String) -> (r: String)
    ensures
        r@ == s@,
{
    let v = chars_of(s.as_str());
    string_from_chars(v.as_slice())
}

/// The view of an optional string.
pub open spec fn opt_view(s: Option<String>) -> Option<Seq<char>> {
    match s {
        Some(x) => Some(x@),
        None => None,
    }
}

/// A copy of an optional string.
pub fn copy_opt(s: &Option<String>) -> (r: Option<String>)
    ensures
        opt_view(r) == opt_view(*s),
{
    match s {
        Some(x) => Some(copy_string(x)),
        None => None,
    }
}

/// Characters with the Unicode `White_Space` property (what `char::is_whitespace` tests).
pub open spec fn is_ws(c: char) -> bool {
    let u = c as u32;
    (9 <= u <= 13) || u == 32 || u == 0x85 || u == 0xA0 || u == 0x1680 || (0x2000 <= u <= 0x200A)
        || u == 0x2028 || u == 0x2029 || u == 0x202F || u == 0x205F || u == 0x3000
}

fn is_ws_exec(c: char) -> (r: bool)
    ensures
        r == is_ws(c),
{
    let u = c as u32;
    (9 <= u && u <= 13) || u == 32 || u == 0x85 || u == 0xA0 || u == 0x1680 || (0x2000 <= u && u
        <= 0x200A) || u == 0x2028 || u == 0x2029 || u == 0x202F || u == 0x205F || u == 0x3000
}

/// Position after the leading whitespace of `s[i..]`.
pub open spec fn skip_ws(s: Seq<char>, i: int) -> int
    decreases s.len() - i,
{
    if 0 <= i < s.len() && is_ws(s[i]) {
        skip_ws(s, i + 1)
    } else {
        i
    }
}

/// End of `s[..j]` without its trailing whitespace.
pub open spec fn skip_ws_back(s: Seq<char>, j: int) -> int
    decreases j,
{
    if 0 < j <= s.len() && is_ws(s[j - 1]) {
        skip_ws_back(s, j - 1)
    } else {
        j
    }
}

/// `s` without leading and trailing whitespace (std's `str::trim`).
pub open spec fn trim_ws(s: Seq<char>) -> Seq<char> {
    let a = skip_ws(s, 0);
    let b = skip_ws_back(s, s.len() as int);
    if a < b {
        s.subrange(a, b)
    } else {
        Seq::empty()
    }
}

proof fn lemma_skip_ws(s: Seq<char>, i: int)
    requires
        0 <= i <= s.len(),
    ensures
        i <= skip_ws(s, i) <= s.len(),
    decreases s.len() - i,
{
    if i < s.len() && is_ws(s[i]) {
        lemma_skip_ws(s, i + 1);
    }
}

proof fn lemma_skip_ws_back(s: Seq<char>, j: int)
    requires
        0 <= j <= s.len(),
    ensures
        0 <= skip_ws_back(s, j) <= j,
    decreases j,
{
    if 0 < j && is_ws(s[j - 1]) {
        lemma_skip_ws_back(s, j - 1);
    }
}

/// `s` without leading and trailing whitespace.
pub fn trim_chars(s: &[char]) -> (r: Vec<char>)
    ensures
        r@ == trim_ws(s@),
{
    proof {
        lemma_skip_ws(s@, 0);
        lemma_skip_ws_back(s@, s@.len() as int);
    }
    let n = s.len();
    let mut a: usize = 0;
    while a < n && is_ws_exec(s[a])
        invariant
            n == s@.len(),
            a <= n,
            skip_ws(s@, a as int) == skip_ws(s@, 0),
        decreases n - a,
    {
        a = a + 1;
    }
    let mut b: usize = n;
    while b > 0 && is_ws_exec(s[b - 1])
        invariant
            n == s@.len(),
            b <= n,
            skip_ws_back(s@, b as int) == skip_ws_back(s@, n as int),
        decreases b,
    {
        b = b - 1;
    }
    let mut out: Vec<char> = Vec::new();
    if a < b {
        let mut k = a;
        while k < b
            invariant
                a <= k <= b <= n,
                n == s@.len(),
                out@ == s@.subrange(a as int, k as int),
            decreases b - k,
        {
            out.push(s[k]);
            assert(s@.subrange(a as int, k + 1) == s@.subrange(a as int, k as int).push(s@[k as int]));
            k = k + 1;
        }
    }
    out
}

/// `s` split at every comma.
pub open spec fn split_commas(s: Seq<char>) -> Seq<Seq<char>>
    decreases s.len(),
{
    if s.len() == 0 {
        seq![Seq::empty()]
    } else {
        let rest = split_commas(s.drop_last());
        if s.last() == ',' {
            rest.push(Seq::empty())
        } else {
            rest.update(rest.len() - 1, rest.last().push(s.last()))
        }
    }
}

/// The parts of a comma-separated list, each trimmed (what
/// `s.split(',').map(str::trim)` yields; empty parts included).
pub open spec fn name_list(s: Seq<char>) -> Seq<Seq<char>> {
    Seq::new(split_commas(s).len(), |i: int| trim_ws(split_commas(s)[i]))
}

proof fn lemma_split_commas_len(s: Seq<char>)
    ensures
        split_commas(s).len() >= 1,
    decreases s.len(),
{
    if s.len() > 0 {
        lemma_split_commas_len(s.drop_last());
    }
}

/// The trimmed parts of a comma-separated list.
pub fn split_names(s: &str) -> (r: Vec<Vec<char>>)
    ensures
        r@.len() == name_list(s@).len(),
        forall|i: int| 0 <= i < r@.len() ==> #[trigger] r@[i]@ == name_list(s@)[i],
{
    let v = chars_of(s);
    let mut parts: Vec<Vec<char>> = Vec::new();
    parts.push(Vec::new());
    let mut i: usize = 0;
    while i < v.len()
        invariant
            v@ == s@,
            i <= v@.len(),
            parts@.len() >= 1,
            parts@.len() == split_commas(v@.subrange(0, i as int)).len(),
            forall|k: int| 0 <= k < parts@.len() ==> #[trigger] parts@[k]@ == split_commas(
                v@.subrange(0, i as int),
            )[k],
        decreases v@.len() - i,
    {
        let ghost pre = v@.subrange(0, i as int);
        proof {
            assert(v@.subrange(0, i + 1).drop_last() == pre);
            lemma_split_commas_len(pre);
        }
        if v[i] == ',' {
            parts.push(Vec::new());
        } else {
            let last = parts.len() - 1;
            let mut cur = parts.remove(last);
            cur.push(v[i]);
            parts.push(cur);
        }
        proof {
            let post = split_commas(v@.subrange(0, i + 1));
            assert forall|k: int| 0 <= k < parts@.len() implies #[trigger] parts@[k]@ == post[k] by {}
        }
        i = i + 1;
    }
    assert(v@.subrange(0, v@.len() as int) == v@);
    let mut out: Vec<Vec<char>> = Vec::new();
    let mut k: usize = 0;
    while k < parts.len()
        invariant
            v@ == s@,
            parts@.len() == split_commas(s@).len(),
            forall|q: int| 0 <= q < parts@.len() ==> #[trigger] parts@[q]@ == split_commas(s@)[q],
            k <= parts@.len(),
            out@.len() == k,
            forall|q: int| 0 <= q < k ==> #[trigger] out@[q]@ == name_list(s@)[q],
        decreases parts@.len() - k,
    {
        out.push(trim_chars(parts[k].as_slice()));
        k = k + 1;
    }
    out
}


/// The views of a list of strings.
pub open spec fn strings_view(v: Seq<String>) -> Seq<Seq<char>> {
    Seq::new(v.len(), |i: int| v[i]@)
}

/// The handlers of a `<Scripts>` block, as character sequences.
pub open spec fn scripts_view(s: Option<ScriptsXml>) -> Option<(Seq<Seq<char>>, Seq<Seq<char>>)> {
    match s {
        Some(x) => Some((strings_view(x.on_load@), strings_view(x.on_show@))),
        None => None,
    }
}

/// The animation groups of an `<Animations>` block, as character sequences.
pub open spec fn anims_view(a: Option<Vec<AnimationGroupXml>>) -> Option<Seq<(Option<Seq<char>>, Option<Seq<char>>)>> {
    match a {
        Some(v) => Some(Seq::new(v@.len(), |i: int| (opt_view(v@[i].inherits), opt_view(v@[i].mixin)))),
        None => None,
    }
}

/// The masked children of a `<MaskedTextures>` block, as character sequences.
pub open spec fn masked_view(m: Option<Vec<MaskedTextureXml>>) -> Option<Seq<Option<Seq<char>>>> {
    match m {
        Some(v) => Some(Seq::new(v@.len(), |i: int| opt_view(v@[i].child_key))),
        None => None,
    }
}

fn copy_strings(v: &Vec<String>) -> (r: Vec<String>)
    ensures
        strings_view(r@) == strings_view(v@),
{
    let mut out: Vec<String> = Vec::new();
    let mut i: usize = 0;
    while i < v.len()
        invariant
            i <= v@.len(),
            out@.len() == i,
            forall|q: int| 0 <= q < i ==> (#[trigger] out@[q])@ == v@[q]@,
        decreases v@.len() - i,
    {
        out.push(copy_string(&v[i]));
        i = i + 1;
    }
    assert(strings_view(out@) =~= strings_view(v@));
    out
}

/// A copy of a `<Scripts>` block.
pub fn copy_scripts(s: &Option<ScriptsXml>) -> (r: Option<ScriptsXml>)
    ensures
        scripts_view(r) == scripts_view(*s),
{
    match s {
        Some(x) => Some(ScriptsXml { on_load: copy_strings(&x.on_load), on_show: copy_strings(&x.on_show) }),
        None => None,
    }
}

/// A copy of an `<Animations>` block.
pub fn copy_anims(a: &Option<Vec<AnimationGroupXml>>) -> (r: Option<Vec<AnimationGroupXml>>)
    ensures
        anims_view(r) == anims_view(*a),
{
    match a {
        Some(v) => {
            let mut out: Vec<AnimationGroupXml> = Vec::new();
            let mut i: usize = 0;
            while i < v.len()
                invariant
                    i <= v@.len(),
                    out@.len() == i,
                    forall|q: int|
                        0 <= q < i ==> opt_view((#[trigger] out@[q]).inherits) == opt_view(v@[q].inherits)
                            && opt_view(out@[q].mixin) == opt_view(v@[q].mixin),
                decreases v@.len() - i,
            {
                out.push(AnimationGroupXml { inherits: copy_opt(&v[i].inherits), mixin: copy_opt(&v[i].mixin) });
                i = i + 1;
            }
            assert(anims_view(Some(out)) =~~= anims_view(Some(*v)));
            Some(out)
        },
        None => None,
    }
}

/// A copy of a `<MaskedTextures>` block.
pub fn copy_masked(m: &Option<Vec<MaskedTextureXml>>) -> (r: Option<Vec<MaskedTextureXml>>)
    ensures
        masked_view(r) == masked_view(*m),
{
    match m {
        Some(v) => {
            let mut out: Vec<MaskedTextureXml> = Vec::new();
            let mut i: usize = 0;
            while i < v.len()
                invariant
                    i <= v@.len(),
                    out@.len() == i,
                    forall|q: int| 0 <= q < i ==> opt_view((#[trigger] out@[q]).child_key) == opt_view(v@[q].child_key),
                decreases v@.len() - i,
            {
                out.push(MaskedTextureXml { child_key: copy_opt(&v[i].child_key) });
                i = i + 1;
            }
            assert(masked_view(Some(out)) =~~= masked_view(Some(*v)));
            Some(out)
        },
        None => None,
    }
}

} // verus!
