//! Registries of virtual templates (frames, textures, font strings and
//! animation groups) and what is resolved through them: inheritance chains,
//! lifecycle script flags, mixin lists and key-value pairs.

use vstd::prelude::*;
use crate::keyed::{find_key, get_ref, has_key, keys_distinct, lemma_key_index, lookup, store, stored_under};
use crate::template_xml::{copy_opt, opt_view, AnimationGroupXml, FontStringXml, FrameXml, KeyValueXml, TextureXml, copy_string, name_list, split_names};
use crate::text::{chars_of, lower_seq, string_from_chars, to_ascii_lowercase};

verus! {

/// A registered template: a virtual frame and its widget type.
#[derive(Debug, PartialEq, Eq)]
pub struct TemplateEntry {
    pub name: String,
    pub widget_type: String,
    pub frame: FrameXml,
}

/// A key-value pair reported for a template.
#[derive(Debug, Clone, PartialEq, Eq)]
pub struct TemplateKeyValueInfo {
    pub key: String,
    pub value: String,
    pub value_type: Option<String>,
}

/// All template registries: frame templates (with a lower-case alias table
/// for case-insensitive lookup) and the texture, animation-group and
/// font-string templates.
#[derive(Debug)]
pub struct TemplateRegistry {
    pub entries: Vec<(String, TemplateEntry)>,
    pub entries_ci: Vec<(String, String)>,
    pub textures: Vec<(String, TextureXml)>,
    pub anim_groups: Vec<(String, AnimationGroupXml)>,
    pub font_strings: Vec<(String, FontStringXml)>,
}

impl TemplateRegistry {
    /// Empty registries.
    pub fn new() -> (r: Self)
        ensures
            r.wf(),
            r.entries@.len() == 0,
            r.entries_ci@.len() == 0,
            r.textures@.len() == 0,
            r.anim_groups@.len() == 0,
            r.font_strings@.len() == 0,
    {
        TemplateRegistry {
            entries: Vec::new(),
            entries_ci: Vec::new(),
            textures: Vec::new(),
            anim_groups: Vec::new(),
            font_strings: Vec::new(),
        }
    }

    /// Keys are distinct in every registry.
    pub open spec fn wf(&self) -> bool {
        &&& keys_distinct(self.entries@)
        &&& keys_distinct(self.entries_ci@)
        &&& keys_distinct(self.textures@)
        &&& keys_distinct(self.anim_groups@)
        &&& keys_distinct(self.font_strings@)
    }

    /// The key of the frame template a name refers to: the name itself when
    /// registered, else the template registered under the same name in
    /// another case.
    pub open spec fn spec_resolve(&self, name: Seq<char>) -> Option<Seq<char>> {
        if has_key(self.entries@, name) {
            Some(name)
        } else {
            match lookup(self.entries_ci@, lower_seq(name)) {
                Some(c) => if has_key(self.entries@, c@) {
                    Some(c@)
                } else {
                    None
                },
                None => None,
            }
        }
    }
}

fn owned(s: &str) -> (r: String)
    ensures
        r@ == s@,
{
    let v = chars_of(s);
    string_from_chars(v.as_slice())
}

/// Registers a frame template under `name` (replacing one of that name),
/// and its lower-case alias.
pub fn register_template(reg: &mut TemplateRegistry, name: &str, widget_type: &str, frame: FrameXml)
    requires
        old(reg).wf(),
    ensures
        final(reg).wf(),
        exists|e: TemplateEntry|
            e.name@ == name@ && e.widget_type@ == widget_type@ && e.frame == frame && stored_under(
                final(reg).entries@,
                old(reg).entries@,
                name@,
                e,
            ),
        exists|c: String|
            c@ == name@ && stored_under(final(reg).entries_ci@, old(reg).entries_ci@, lower_seq(name@), c),
        final(reg).textures == old(reg).textures,
        final(reg).anim_groups == old(reg).anim_groups,
        final(reg).font_strings == old(reg).font_strings,
{
    let lower = to_ascii_lowercase(name);
    let entry = TemplateEntry { name: owned(name), widget_type: owned(widget_type), frame };
    let ghost e = entry;
    store(&mut reg.entries, owned(name), entry);
    assert(stored_under(reg.entries@, old(reg).entries@, name@, e));
    let ghost after_entries = reg.entries@;
    let canonical = owned(name);
    let ghost c = canonical;
    store(&mut reg.entries_ci, string_from_chars(lower.as_slice()), canonical);
    assert(stored_under(reg.entries_ci@, old(reg).entries_ci@, lower_seq(name@), c));
    assert(reg.entries@ == after_entries);
}

/// The frame template a name refers to, matched exactly or else in any case.
pub fn get_template<'a>(reg: &'a TemplateRegistry, name: &str) -> (r: Option<&'a TemplateEntry>)
    ensures
        match reg.spec_resolve(name@) {
            Some(k) => r matches Some(e) && lookup(reg.entries@, k) == Some(*e),
            None => r is None,
        },
{
    proof {
        lemma_key_index(reg.entries@, name@);
    }
    match get_ref(&reg.entries, name) {
        Some(e) => Some(e),
        None => {
            let lower = to_ascii_lowercase(name);
            let lower_str = string_from_chars(lower.as_slice());
            match get_ref(&reg.entries_ci, lower_str.as_str()) {
                Some(canonical) => {
                    proof {
                        lemma_key_index(reg.entries@, canonical@);
                    }
                    get_ref(&reg.entries, canonical.as_str())
                },
                None => None,
            }
        },
    }
}

/// Empties every registry.
pub fn clear_templates(reg: &mut TemplateRegistry)
    ensures
        final(reg).wf(),
        final(reg).entries@.len() == 0,
        final(reg).entries_ci@.len() == 0,
        final(reg).textures@.len() == 0,
        final(reg).anim_groups@.len() == 0,
        final(reg).font_strings@.len() == 0,
{
    reg.entries.clear();
    reg.entries_ci.clear();
    reg.textures.clear();
    reg.anim_groups.clear();
    reg.font_strings.clear();
}

// ---------------------------------------------------------------------------
// Mixins
// ---------------------------------------------------------------------------

/// The names of an optional comma-separated attribute.
pub open spec fn attr_names(attr: Option<Seq<char>>) -> Seq<Seq<char>> {
    match attr {
        Some(a) => name_list(a),
        None => Seq::empty(),
    }
}

/// `acc` followed by each non-empty name of `names` it does not hold yet.
pub open spec fn add_unique(acc: Seq<Seq<char>>, names: Seq<Seq<char>>) -> Seq<Seq<char>>
    decreases names.len(),
{
    if names.len() == 0 {
        acc
    } else {
        let a = add_unique(acc, names.drop_last());
        let n = names.last();
        if n.len() == 0 || a.contains(n) {
            a
        } else {
            a.push(n)
        }
    }
}

/// The views of a list of strings.
pub open spec fn views(v: Seq<String>) -> Seq<Seq<char>> {
    Seq::new(v.len(), |i: int| v[i]@)
}

fn contains_name(v: &Vec<String>, name: &Vec<char>) -> (r: bool)
    ensures
        r == views(v@).contains(name@),
{
    let mut i: usize = 0;
    while i < v.len()
        invariant
            i <= v@.len(),
            forall|k: int| 0 <= k < i ==> v@[k]@ != name@,
        decreases v@.len() - i,
    {
        let s = string_from_chars(name.as_slice());
        if crate::text::str_eq(v[i].as_str(), s.as_str()) {
            assert(views(v@)[i as int] == name@);
            return true;
        }
        i = i + 1;
    }
    assert(!views(v@).contains(name@)) by {
        if views(v@).contains(name@) {
            let q = choose|q: int| 0 <= q < views(v@).len() && views(v@)[q] == name@;
            assert(v@[q]@ == name@);
        }
    }
    false
}

/// Appends each non-empty name of the comma-separated `attr` that `mixins`
/// does not hold yet, in order.
pub fn append_unique_mixins(mixins: &mut Vec<String>, attr: Option<&str>)
    ensures
        views(final(mixins)@) == add_unique(
            views(old(mixins)@),
            attr_names(
                match attr {
                    Some(a) => Some(a@),
                    None => None,
                },
            ),
        ),
{
    let a = match attr {
        Some(a) => a,
        None => {
            return;
        },
    };
    let names = split_names(a);
    let ghost ns = name_list(a@);
    let mut i: usize = 0;
    while i < names.len()
        invariant
            names@.len() == ns.len(),
            ns == name_list(a@),
            forall|k: int| 0 <= k < names@.len() ==> #[trigger] names@[k]@ == ns[k],
            i <= names@.len(),
            views(mixins@) == add_unique(views(old(mixins)@), ns.subrange(0, i as int)),
        decreases names@.len() - i,
    {
        let ghost before = mixins@;
        proof {
            assert(ns.subrange(0, i + 1).drop_last() == ns.subrange(0, i as int));
            assert(ns.subrange(0, i + 1).last() == ns[i as int]);
        }
        let name = &names[i];
        if name.len() > 0 && !contains_name(mixins, name) {
            mixins.push(string_from_chars(name.as_slice()));
            assert(views(mixins@) == views(before).push(name@));
        } else {
            assert(views(mixins@) == views(before));
        }
        i = i + 1;
    }
    assert(ns.subrange(0, ns.len() as int) == ns);
}

/// The mixins inherited from each parent in turn, then the element's own,
/// each name once.
pub open spec fn spec_inherited_mixins(parent_mixins: Seq<Option<Seq<char>>>, own: Option<Seq<char>>) -> Seq<Seq<char>> {
    add_unique(parents_mixins(parent_mixins, parent_mixins.len() as int), attr_names(own))
}

/// The mixins of the first `k` parents, each name once.
pub open spec fn parents_mixins(parent_mixins: Seq<Option<Seq<char>>>, k: int) -> Seq<Seq<char>>
    decreases k,
{
    if k <= 0 {
        Seq::empty()
    } else {
        add_unique(parents_mixins(parent_mixins, k - 1), attr_names(parent_mixins[k - 1]))
    }
}

/// The views of optional strings.
pub open spec fn opt_views(v: Seq<Option<String>>) -> Seq<Option<Seq<char>>> {
    Seq::new(v.len(), |i: int| opt_view(v[i]))
}

/// The mixins of an element: those of its parents (`parent_mixins`, the
/// mixin attribute of each parent found, in `inherits` order), then its own.
pub fn collect_inherited_mixins(parent_mixins: &Vec<Option<String>>, own_mixin: Option<&str>) -> (r: Vec<String>)
    ensures
        views(r@) == spec_inherited_mixins(
            opt_views(parent_mixins@),
            match own_mixin {
                Some(a) => Some(a@),
                None => None,
            },
        ),
{
    let mut mixins: Vec<String> = Vec::new();
    let ghost pm = opt_views(parent_mixins@);
    let mut i: usize = 0;
    assert(views(mixins@) == Seq::<Seq<char>>::empty());
    while i < parent_mixins.len()
        invariant
            pm == opt_views(parent_mixins@),
            i <= parent_mixins@.len(),
            views(mixins@) == parents_mixins(pm, i as int),
        decreases parent_mixins@.len() - i,
    {
        match &parent_mixins[i] {
            Some(m) => append_unique_mixins(&mut mixins, Some(m.as_str())),
            None => append_unique_mixins(&mut mixins, None),
        }
        i = i + 1;
    }
    append_unique_mixins(&mut mixins, own_mixin);
    mixins
}

/// Each name a mixin list holds, it holds once and non-empty; and it holds
/// exactly the non-empty names of the accumulated list and of the new names.
pub proof fn lemma_add_unique(acc: Seq<Seq<char>>, names: Seq<Seq<char>>)
    requires
        acc.no_duplicates(),
        forall|i: int| 0 <= i < acc.len() ==> (#[trigger] acc[i]).len() > 0,
    ensures
        add_unique(acc, names).no_duplicates(),
        forall|i: int| 0 <= i < add_unique(acc, names).len() ==> (#[trigger] add_unique(acc, names)[i]).len() > 0,
        forall|x: Seq<char>|
            #[trigger] add_unique(acc, names).contains(x) <==> (acc.contains(x) || (x.len() > 0
                && names.contains(x))),
    decreases names.len(),
{
    if names.len() > 0 {
        lemma_add_unique(acc, names.drop_last());
        let a = add_unique(acc, names.drop_last());
        let n = names.last();
        assert forall|x: Seq<char>| #[trigger] add_unique(acc, names).contains(x) <==> (acc.contains(x)
            || (x.len() > 0 && names.contains(x))) by {
            if names.contains(x) && !names.drop_last().contains(x) {
                let q = choose|q: int| 0 <= q < names.len() && names[q] == x;
                if q < names.len() - 1 {
                    assert(names.drop_last()[q] == x);
                }
            }
            if names.drop_last().contains(x) {
                let q = choose|q: int| 0 <= q < names.drop_last().len() && names.drop_last()[q] == x;
                assert(names[q] == x);
            }
            if x == n {
                assert(names[names.len() - 1] == x);
            }
            if a.push(n).contains(x) && !a.contains(x) {
                let q = choose|q: int| 0 <= q < a.push(n).len() && a.push(n)[q] == x;
                if q < a.len() {
                    assert(a[q] == x);
                }
            }
            if a.contains(x) {
                let q = choose|q: int| 0 <= q < a.len() && a[q] == x;
                assert(a.push(n)[q] == x);
            }
            if x == n {
                assert(a.push(n)[a.len() as int] == x);
            }
        }
    }
}

/// Mixins already collected keep their places: the names added come after
/// them, so a parent's mixins precede its child's; an empty name adds
/// nothing.
pub proof fn lemma_add_unique_appends(acc: Seq<Seq<char>>, names: Seq<Seq<char>>)
    ensures
        add_unique(acc, names).len() >= acc.len(),
        add_unique(acc, names).subrange(0, acc.len() as int) == acc,
        add_unique(acc, names.push(Seq::<char>::empty())) == add_unique(acc, names),
    decreases names.len(),
{
    if names.len() > 0 {
        lemma_add_unique_appends(acc, names.drop_last());
        let a = add_unique(acc, names.drop_last());
        assert(a.push(names.last()).subrange(0, acc.len() as int) == a.subrange(0, acc.len() as int));
    }
    assert(names.push(Seq::<char>::empty()).drop_last() == names);
}

// ---------------------------------------------------------------------------
// Inheritance chains
// ---------------------------------------------------------------------------

/// How deep an inheritance chain is followed. Every level of a chain names a
/// template not seen before, so no chain of a registry that fits in memory
/// reaches it.
pub const CHAIN_DEPTH_LIMIT: u64 = 0xffff_ffff_ffff_ffff;

/// The parent names a registered frame template lists in `inherits`.
pub open spec fn frame_parents(reg: TemplateRegistry, key: Seq<char>) -> Seq<Seq<char>> {
    match lookup(reg.entries@, key) {
        Some(e) => attr_names(
            match e.frame.inherits {
                Some(i) => Some(i@),
                None => None,
            },
        ),
        None => Seq::empty(),
    }
}

/// Depth-first collection from `name`: a name seen before adds nothing;
/// otherwise it is marked seen and, when it names a template, the chains of
/// its parents come first and then the template itself.
pub open spec fn chain_dfs(
    reg: TemplateRegistry,
    name: Seq<char>,
    visited: Seq<Seq<char>>,
    chain: Seq<Seq<char>>,
    fuel: nat,
) -> (Seq<Seq<char>>, Seq<Seq<char>>)
    decreases fuel, 0int,
{
    if fuel == 0 || visited.contains(name) {
        (visited, chain)
    } else {
        let v1 = visited.push(name);
        match reg.spec_resolve(name) {
            None => (v1, chain),
            Some(k) => {
                let (v2, c2) = chain_list(reg, frame_parents(reg, k), 0, v1, chain, (fuel - 1) as nat);
                (v2, c2.push(k))
            },
        }
    }
}

/// Depth-first collection from each non-empty name of `names[i..]` in turn.
pub open spec fn chain_list(
    reg: TemplateRegistry,
    names: Seq<Seq<char>>,
    i: int,
    visited: Seq<Seq<char>>,
    chain: Seq<Seq<char>>,
    fuel: nat,
) -> (Seq<Seq<char>>, Seq<Seq<char>>)
    decreases fuel, names.len() - i,
{
    if i < 0 || i >= names.len() {
        (visited, chain)
    } else if names[i].len() == 0 {
        chain_list(reg, names, i + 1, visited, chain, fuel)
    } else {
        let (v, c) = chain_dfs(reg, names[i], visited, chain, fuel);
        chain_list(reg, names, i + 1, v, c, fuel)
    }
}

/// The inheritance chain of a comma-separated list of template names, most
/// basic template first, each template once per name it is reached by.
pub open spec fn spec_template_chain(reg: TemplateRegistry, names: Seq<char>) -> Seq<Seq<char>> {
    let key = crate::template_xml::trim_ws(names);
    if key.len() == 0 {
        Seq::empty()
    } else {
        chain_list(reg, name_list(key), 0, Seq::empty(), Seq::empty(), CHAIN_DEPTH_LIMIT as nat).1
    }
}

proof fn lemma_chain_dfs_extends(
    reg: TemplateRegistry,
    name: Seq<char>,
    visited: Seq<Seq<char>>,
    chain: Seq<Seq<char>>,
    fuel: nat,
)
    ensures
        chain_dfs(reg, name, visited, chain, fuel).1.len() >= chain.len(),
        chain_dfs(reg, name, visited, chain, fuel).1.subrange(0, chain.len() as int) == chain,
    decreases fuel, 0int,
{
    if fuel > 0 && !visited.contains(name) {
        match reg.spec_resolve(name) {
            None => {},
            Some(k) => {
                let v1 = visited.push(name);
                lemma_chain_list_extends(reg, frame_parents(reg, k), 0, v1, chain, (fuel - 1) as nat);
                let c2 = chain_list(reg, frame_parents(reg, k), 0, v1, chain, (fuel - 1) as nat).1;
                assert(c2.push(k).subrange(0, chain.len() as int) == c2.subrange(0, chain.len() as int));
            },
        }
    }
}

proof fn lemma_chain_list_extends(
    reg: TemplateRegistry,
    names: Seq<Seq<char>>,
    i: int,
    visited: Seq<Seq<char>>,
    chain: Seq<Seq<char>>,
    fuel: nat,
)
    ensures
        chain_list(reg, names, i, visited, chain, fuel).1.len() >= chain.len(),
        chain_list(reg, names, i, visited, chain, fuel).1.subrange(0, chain.len() as int) == chain,
    decreases fuel, names.len() - i,
{
    if 0 <= i < names.len() {
        if names[i].len() == 0 {
            lemma_chain_list_extends(reg, names, i + 1, visited, chain, fuel);
        } else {
            let (v, c) = chain_dfs(reg, names[i], visited, chain, fuel);
            lemma_chain_dfs_extends(reg, names[i], visited, chain, fuel);
            lemma_chain_list_extends(reg, names, i + 1, v, c, fuel);
            let r = chain_list(reg, names, i + 1, v, c, fuel).1;
            assert(r.subrange(0, chain.len() as int) == r.subrange(0, c.len() as int).subrange(
                0,
                chain.len() as int,
            ));
        }
    }
}

/// A template reached by an inheritance chain comes after the chains of its
/// parents (most basic first), and everything collected before it stays in
/// front: the chain grows only at its end.
pub proof fn lemma_template_follows_its_bases(
    reg: TemplateRegistry,
    name: Seq<char>,
    visited: Seq<Seq<char>>,
    chain: Seq<Seq<char>>,
    fuel: nat,
    key: Seq<char>,
)
    requires
        fuel > 0,
        !visited.contains(name),
        reg.spec_resolve(name) == Some(key),
    ensures
        ({
            let bases = chain_list(reg, frame_parents(reg, key), 0, visited.push(name), chain, (fuel - 1) as nat).1;
            &&& chain_dfs(reg, name, visited, chain, fuel).1 == bases.push(key)
            &&& bases.len() >= chain.len()
            &&& bases.subrange(0, chain.len() as int) == chain
        }),
{
    lemma_chain_list_extends(reg, frame_parents(reg, key), 0, visited.push(name), chain, (fuel - 1) as nat);
}

/// The views of character vectors.
pub open spec fn char_views(v: Seq<Vec<char>>) -> Seq<Seq<char>> {
    Seq::new(v.len(), |i: int| v[i]@)
}

/// The keys of the entries at the given indices.
pub open spec fn keys_at(reg: TemplateRegistry, idx: Seq<usize>) -> Seq<Seq<char>> {
    Seq::new(idx.len(), |i: int| reg.entries@[idx[i] as int].0@)
}

/// All indices are entries.
pub open spec fn indices_ok(reg: TemplateRegistry, idx: Seq<usize>) -> bool {
    forall|i: int| 0 <= i < idx.len() ==> (#[trigger] idx[i]) < reg.entries@.len()
}

fn seen(visited: &Vec<Vec<char>>, name: &Vec<char>) -> (r: bool)
    ensures
        r == char_views(visited@).contains(name@),
{
    let mut i: usize = 0;
    while i < visited.len()
        invariant
            i <= visited@.len(),
            forall|k: int| 0 <= k < i ==> visited@[k]@ != name@,
        decreases visited@.len() - i,
    {
        let a = &visited[i];
        if a.len() == name.len() {
            let mut j: usize = 0;
            let mut same = true;
            while j < a.len()
                invariant
                    a@.len() == name@.len(),
                    j <= a@.len(),
                    same ==> forall|q: int| 0 <= q < j ==> a@[q] == name@[q],
                    !same ==> a@ != name@,
                decreases a@.len() - j,
            {
                if same && a[j] != name[j] {
                    same = false;
                }
                j = j + 1;
            }
            if same {
                assert(a@ == name@);
                assert(char_views(visited@)[i as int] == name@);
                return true;
            }
        }
        i = i + 1;
    }
    assert(!char_views(visited@).contains(name@)) by {
        if char_views(visited@).contains(name@) {
            let q = choose|q: int| 0 <= q < char_views(visited@).len() && char_views(visited@)[q] == name@;
            assert(visited@[q]@ == name@);
        }
    }
    false
}

/// The index of the frame template a name refers to.
fn resolve_index(reg: &TemplateRegistry, name: &str) -> (r: Option<usize>)
    requires
        reg.wf(),
    ensures
        match reg.spec_resolve(name@) {
            Some(k) => r matches Some(i) && i < reg.entries@.len() && reg.entries@[i as int].0@ == k,
            None => r is None,
        },
{
    proof {
        lemma_key_index(reg.entries@, name@);
    }
    match find_key(&reg.entries, name) {
        Some(i) => Some(i),
        None => {
            let lower = to_ascii_lowercase(name);
            let lower_str = string_from_chars(lower.as_slice());
            match get_ref(&reg.entries_ci, lower_str.as_str()) {
                Some(canonical) => {
                    proof {
                        lemma_key_index(reg.entries@, canonical@);
                    }
                    find_key(&reg.entries, canonical.as_str())
                },
                None => None,
            }
        },
    }
}

/// Collects the chain of `name` into `chain` (as entry indices), depth-first.
fn collect_template_chain(
    reg: &TemplateRegistry,
    name: &Vec<char>,
    chain: &mut Vec<usize>,
    visited: &mut Vec<Vec<char>>,
    fuel: u64,
)
    requires
        reg.wf(),
        indices_ok(*reg, old(chain)@),
    ensures
        indices_ok(*reg, final(chain)@),
        (char_views(final(visited)@), keys_at(*reg, final(chain)@)) == chain_dfs(
            *reg,
            name@,
            char_views(old(visited)@),
            keys_at(*reg, old(chain)@),
            fuel as nat,
        ),
    decreases fuel,
{
    if fuel == 0 || seen(visited, name) {
        return;
    }
    let mut copy: Vec<char> = Vec::new();
    let mut j: usize = 0;
    while j < name.len()
        invariant
            j <= name@.len(),
            copy@ == name@.subrange(0, j as int),
        decreases name@.len() - j,
    {
        copy.push(name[j]);
        j = j + 1;
    }
    assert(name@.subrange(0, name@.len() as int) == name@);
    visited.push(copy);
    assert(char_views(visited@) == char_views(old(visited)@).push(name@));
    let name_str = string_from_chars(name.as_slice());
    match resolve_index(reg, name_str.as_str()) {
        None => {},
        Some(idx) => {
            let ghost k = reg.entries@[idx as int].0@;
            let ghost parents = frame_parents(*reg, k);
            let ghost v1 = char_views(visited@);
            let ghost c0 = keys_at(*reg, chain@);
            proof {
                crate::keyed::lemma_key_index_unique(reg.entries@, k, idx as int);
            }
            match &reg.entries[idx].1.frame.inherits {
                Some(inherits) => {
                    let names = split_names(inherits.as_str());
                    let mut i: usize = 0;
                    while i < names.len()
                        invariant
                            reg.wf(),
                            fuel > 0,
                            names@.len() == parents.len(),
                            forall|q: int| 0 <= q < names@.len() ==> #[trigger] names@[q]@ == parents[q],
                            i <= names@.len(),
                            indices_ok(*reg, chain@),
                            chain_list(*reg, parents, 0, v1, c0, (fuel - 1) as nat) == chain_list(
                                *reg,
                                parents,
                                i as int,
                                char_views(visited@),
                                keys_at(*reg, chain@),
                                (fuel - 1) as nat,
                            ),
                        decreases names@.len() - i,
                    {
                        if names[i].len() > 0 {
                            collect_template_chain(reg, &names[i], chain, visited, fuel - 1);
                        }
                        i = i + 1;
                    }
                },
                None => {
                    assert(parents.len() == 0);
                },
            }
            chain.push(idx);
            assert(keys_at(*reg, chain@) =~= chain_list(*reg, parents, 0, v1, c0, (fuel - 1) as nat).1.push(k));
        },
    }
}

/// The inheritance chain of a comma-separated list of template names: the
/// templates each name leads to, most basic first.
pub fn get_template_chain<'a>(reg: &'a TemplateRegistry, names: &str) -> (r: Vec<&'a TemplateEntry>)
    requires
        reg.wf(),
    ensures
        r@.len() == spec_template_chain(*reg, names@).len(),
        forall|i: int|
            0 <= i < r@.len() ==> lookup(reg.entries@, spec_template_chain(*reg, names@)[i]) == Some(
                *#[trigger] r@[i],
            ),
{
    let v = chars_of(names);
    let key = crate::template_xml::trim_chars(v.as_slice());
    let mut chain: Vec<usize> = Vec::new();
    if key.len() > 0 {
        let key_str = string_from_chars(key.as_slice());
        let parts = split_names(key_str.as_str());
        let ghost ps = name_list(key@);
        let mut visited: Vec<Vec<char>> = Vec::new();
        let mut i: usize = 0;
        assert(char_views(visited@) == Seq::<Seq<char>>::empty());
        assert(keys_at(*reg, chain@) == Seq::<Seq<char>>::empty());
        while i < parts.len()
            invariant
                reg.wf(),
                parts@.len() == ps.len(),
                forall|q: int| 0 <= q < parts@.len() ==> #[trigger] parts@[q]@ == ps[q],
                i <= parts@.len(),
                indices_ok(*reg, chain@),
                chain_list(*reg, ps, 0, Seq::empty(), Seq::empty(), CHAIN_DEPTH_LIMIT as nat) == chain_list(
                    *reg,
                    ps,
                    i as int,
                    char_views(visited@),
                    keys_at(*reg, chain@),
                    CHAIN_DEPTH_LIMIT as nat,
                ),
            decreases parts@.len() - i,
        {
            if parts[i].len() > 0 {
                collect_template_chain(reg, &parts[i], &mut chain, &mut visited, CHAIN_DEPTH_LIMIT);
            }
            i = i + 1;
        }
        assert(keys_at(*reg, chain@) == spec_template_chain(*reg, names@));
    }
    let mut out: Vec<&'a TemplateEntry> = Vec::new();
    let mut k: usize = 0;
    while k < chain.len()
        invariant
            reg.wf(),
            indices_ok(*reg, chain@),
            keys_at(*reg, chain@) == spec_template_chain(*reg, names@),
            k <= chain@.len(),
            out@.len() == k,
            forall|i: int|
                0 <= i < k ==> lookup(reg.entries@, spec_template_chain(*reg, names@)[i]) == Some(
                    *#[trigger] out@[i],
                ),
        decreases chain@.len() - k,
    {
        let idx = chain[k];
        proof {
            crate::keyed::lemma_key_index_unique(reg.entries@, reg.entries@[idx as int].0@, idx as int);
        }
        out.push(&reg.entries[idx].1);
        k = k + 1;
    }
    out
}

/// Whether a template's scripts have an `OnLoad` and an `OnShow` handler.
pub open spec fn entry_flags(e: TemplateEntry) -> (bool, bool) {
    match e.frame.scripts {
        Some(s) => (s.on_load@.len() > 0, s.on_show@.len() > 0),
        None => (false, false),
    }
}

/// Whether any template of a chain has an `OnLoad` handler, and whether any
/// has an `OnShow` handler.
pub open spec fn chain_flags(reg: TemplateRegistry, chain: Seq<Seq<char>>) -> (bool, bool) {
    (
        exists|i: int| 0 <= i < chain.len() && (lookup(reg.entries@, #[trigger] chain[i]) matches Some(e) && entry_flags(e).0),
        exists|i: int| 0 <= i < chain.len() && (lookup(reg.entries@, #[trigger] chain[i]) matches Some(e) && entry_flags(e).1),
    )
}

/// Whether the inheritance chain of a list of template names runs an
/// `OnLoad` handler and an `OnShow` handler.
pub fn get_template_lifecycle_flags(reg: &TemplateRegistry, names: &str) -> (r: (bool, bool))
    requires
        reg.wf(),
    ensures
        r == chain_flags(*reg, spec_template_chain(*reg, names@)),
{
    let chain = get_template_chain(reg, names);
    let ghost sc = spec_template_chain(*reg, names@);
    let mut on_load = false;
    let mut on_show = false;
    let mut i: usize = 0;
    while i < chain.len()
        invariant
            chain@.len() == sc.len(),
            forall|q: int| 0 <= q < chain@.len() ==> lookup(reg.entries@, sc[q]) == Some(*#[trigger] chain@[q]),
            i <= chain@.len(),
            on_load == exists|q: int| 0 <= q < i && (lookup(reg.entries@, #[trigger] sc[q]) matches Some(e) && entry_flags(e).0),
            on_show == exists|q: int| 0 <= q < i && (lookup(reg.entries@, #[trigger] sc[q]) matches Some(e) && entry_flags(e).1),
        decreases chain@.len() - i,
    {
        let entry = chain[i];
        assert(lookup(reg.entries@, sc[i as int]) == Some(*entry));
        match &entry.frame.scripts {
            Some(scripts) => {
                if scripts.on_load.len() > 0 {
                    on_load = true;
                }
                if scripts.on_show.len() > 0 {
                    on_show = true;
                }
            },
            None => {},
        }
        i = i + 1;
    }
    (on_load, on_show)
}

// ---------------------------------------------------------------------------
// Font-string, texture and animation-group templates
// ---------------------------------------------------------------------------

/// Registers a virtual `<FontString>` template (replacing one of that name).
pub fn register_font_string_template(reg: &mut TemplateRegistry, name: &str, fontstring: FontStringXml)
    requires
        old(reg).wf(),
    ensures
        final(reg).wf(),
        stored_under(final(reg).font_strings@, old(reg).font_strings@, name@, fontstring),
        final(reg).entries == old(reg).entries,
        final(reg).entries_ci == old(reg).entries_ci,
        final(reg).textures == old(reg).textures,
        final(reg).anim_groups == old(reg).anim_groups,
{
    store(&mut reg.font_strings, owned(name), fontstring);
}

/// The `<FontString>` template registered under exactly this name.
pub fn get_font_string_template<'a>(reg: &'a TemplateRegistry, name: &str) -> (r: Option<&'a FontStringXml>)
    ensures
        match lookup(reg.font_strings@, name@) {
            Some(f) => r matches Some(x) && *x == f,
            None => r is None,
        },
{
    get_ref(&reg.font_strings, name)
}

/// The mixin of the registered template of each name.
pub open spec fn parent_mixin_views<V>(table: Seq<(String, V)>, names: Seq<Seq<char>>, mixin_of: spec_fn(V) -> Option<String>) -> Seq<Option<Seq<char>>> {
    Seq::new(
        names.len(),
        |i: int|
            match lookup(table, names[i]) {
                Some(t) => opt_view(mixin_of(t)),
                None => None,
            },
    )
}

/// The mixins of a font string: those of the templates it inherits from,
/// then its own, each name once.
pub fn collect_font_string_mixins(reg: &TemplateRegistry, inherits: Option<&str>, own_mixin: Option<&str>) -> (r: Vec<String>)
    ensures
        views(r@) == spec_inherited_mixins(
            parent_mixin_views(
                reg.font_strings@,
                attr_names(
                    match inherits {
                        Some(a) => Some(a@),
                        None => None,
                    },
                ),
                |f: FontStringXml| f.mixin,
            ),
            match own_mixin {
                Some(a) => Some(a@),
                None => None,
            },
        ),
{
    let mut parents: Vec<Option<String>> = Vec::new();
    let ghost names_spec = attr_names(
        match inherits {
            Some(a) => Some(a@),
            None => None,
        },
    );
    let ghost target = parent_mixin_views(reg.font_strings@, names_spec, |f: FontStringXml| f.mixin);
    match inherits {
        Some(a) => {
            let names = split_names(a);
            let mut i: usize = 0;
            while i < names.len()
                invariant
                    names_spec == name_list(a@),
                    target == parent_mixin_views(reg.font_strings@, names_spec, |f: FontStringXml| f.mixin),
                    names@.len() == names_spec.len(),
                    forall|q: int| 0 <= q < names@.len() ==> #[trigger] names@[q]@ == names_spec[q],
                    i <= names@.len(),
                    parents@.len() == i,
                    forall|q: int| 0 <= q < i ==> #[trigger] opt_views(parents@)[q] == target[q],
                decreases names@.len() - i,
            {
                let name = string_from_chars(names[i].as_slice());
                let m = match get_font_string_template(reg, name.as_str()) {
                    Some(f) => crate::template_xml::copy_opt(&f.mixin),
                    None => None,
                };
                let ghost before = parents@;
                parents.push(m);
                assert(opt_views(parents@) == opt_views(before).push(opt_view(m)));
                i = i + 1;
            }
        },
        None => {},
    }
    assert(opt_views(parents@) == target);
    collect_inherited_mixins(&parents, own_mixin)
}

/// Registers a virtual texture template (replacing one of that name).
pub fn register_texture_template(reg: &mut TemplateRegistry, name: &str, texture: TextureXml)
    requires
        old(reg).wf(),
    ensures
        final(reg).wf(),
        stored_under(final(reg).textures@, old(reg).textures@, name@, texture),
        final(reg).entries == old(reg).entries,
        final(reg).entries_ci == old(reg).entries_ci,
        final(reg).anim_groups == old(reg).anim_groups,
        final(reg).font_strings == old(reg).font_strings,
{
    store(&mut reg.textures, owned(name), texture);
}

/// The mixins of a texture: those of the templates it inherits from, then
/// its own, each name once.
pub fn collect_texture_mixins(reg: &TemplateRegistry, texture: &TextureXml) -> (r: Vec<String>)
    ensures
        views(r@) == spec_inherited_mixins(
            parent_mixin_views(reg.textures@, attr_names(opt_view(texture.inherits)), |t: TextureXml| t.mixin),
            opt_view(texture.mixin),
        ),
{
    let mut parents: Vec<Option<String>> = Vec::new();
    let ghost names_spec = attr_names(opt_view(texture.inherits));
    let ghost target = parent_mixin_views(reg.textures@, names_spec, |t: TextureXml| t.mixin);
    match &texture.inherits {
        Some(a) => {
            let names = split_names(a.as_str());
            let mut i: usize = 0;
            while i < names.len()
                invariant
                    names_spec == name_list(a@),
                    target == parent_mixin_views(reg.textures@, names_spec, |t: TextureXml| t.mixin),
                    names@.len() == names_spec.len(),
                    forall|q: int| 0 <= q < names@.len() ==> #[trigger] names@[q]@ == names_spec[q],
                    i <= names@.len(),
                    parents@.len() == i,
                    forall|q: int| 0 <= q < i ==> #[trigger] opt_views(parents@)[q] == target[q],
                decreases names@.len() - i,
            {
                let name = string_from_chars(names[i].as_slice());
                let m = match get_ref(&reg.textures, name.as_str()) {
                    Some(t) => crate::template_xml::copy_opt(&t.mixin),
                    None => None,
                };
                let ghost before = parents@;
                parents.push(m);
                assert(opt_views(parents@) == opt_views(before).push(opt_view(m)));
                i = i + 1;
            }
        },
        None => {},
    }
    assert(opt_views(parents@) == target);
    match &texture.mixin {
        Some(m) => collect_inherited_mixins(&parents, Some(m.as_str())),
        None => collect_inherited_mixins(&parents, None),
    }
}

/// Registers a virtual animation-group template (replacing one of that name).
pub fn register_anim_group_template(reg: &mut TemplateRegistry, name: &str, anim_group: AnimationGroupXml)
    requires
        old(reg).wf(),
    ensures
        final(reg).wf(),
        stored_under(final(reg).anim_groups@, old(reg).anim_groups@, name@, anim_group),
        final(reg).entries == old(reg).entries,
        final(reg).entries_ci == old(reg).entries_ci,
        final(reg).textures == old(reg).textures,
        final(reg).font_strings == old(reg).font_strings,
{
    store(&mut reg.anim_groups, owned(name), anim_group);
}

/// The animation-group template registered under exactly this name.
pub fn get_anim_group_template<'a>(reg: &'a TemplateRegistry, name: &str) -> (r: Option<&'a AnimationGroupXml>)
    ensures
        match lookup(reg.anim_groups@, name@) {
            Some(g) => r matches Some(x) && *x == g,
            None => r is None,
        },
{
    get_ref(&reg.anim_groups, name)
}

/// The mixins of an animation group: those of the templates it inherits
/// from, then its own, each name once.
pub fn collect_anim_group_mixins(reg: &TemplateRegistry, anim_group: &AnimationGroupXml) -> (r: Vec<String>)
    ensures
        views(r@) == spec_inherited_mixins(
            parent_mixin_views(reg.anim_groups@, attr_names(opt_view(anim_group.inherits)), |g: AnimationGroupXml| g.mixin),
            opt_view(anim_group.mixin),
        ),
{
    let mut parents: Vec<Option<String>> = Vec::new();
    let ghost names_spec = attr_names(opt_view(anim_group.inherits));
    let ghost target = parent_mixin_views(reg.anim_groups@, names_spec, |g: AnimationGroupXml| g.mixin);
    match &anim_group.inherits {
        Some(a) => {
            let names = split_names(a.as_str());
            let mut i: usize = 0;
            while i < names.len()
                invariant
                    names_spec == name_list(a@),
                    target == parent_mixin_views(reg.anim_groups@, names_spec, |g: AnimationGroupXml| g.mixin),
                    names@.len() == names_spec.len(),
                    forall|q: int| 0 <= q < names@.len() ==> #[trigger] names@[q]@ == names_spec[q],
                    i <= names@.len(),
                    parents@.len() == i,
                    forall|q: int| 0 <= q < i ==> #[trigger] opt_views(parents@)[q] == target[q],
                decreases names@.len() - i,
            {
                let name = string_from_chars(names[i].as_slice());
                let m = match get_anim_group_template(reg, name.as_str()) {
                    Some(g) => crate::template_xml::copy_opt(&g.mixin),
                    None => None,
                };
                let ghost before = parents@;
                parents.push(m);
                assert(opt_views(parents@) == opt_views(before).push(opt_view(m)));
                i = i + 1;
            }
        },
        None => {},
    }
    assert(opt_views(parents@) == target);
    match &anim_group.mixin {
        Some(m) => collect_inherited_mixins(&parents, Some(m.as_str())),
        None => collect_inherited_mixins(&parents, None),
    }
}

// ---------------------------------------------------------------------------
// Texture key values and inheritance
// ---------------------------------------------------------------------------

/// A key-value pair as character sequences.
pub open spec fn kv_view(k: KeyValueXml) -> (Seq<char>, Seq<char>, Option<Seq<char>>) {
    (k.key@, k.value@, opt_view(k.value_type))
}

/// A reported key-value pair as character sequences.
pub open spec fn info_view(k: TemplateKeyValueInfo) -> (Seq<char>, Seq<char>, Option<Seq<char>>) {
    (k.key@, k.value@, opt_view(k.value_type))
}

/// The views of reported key-value pairs.
pub open spec fn info_views(v: Seq<TemplateKeyValueInfo>) -> Seq<(Seq<char>, Seq<char>, Option<Seq<char>>)> {
    Seq::new(v.len(), |i: int| info_view(v[i]))
}

/// The key-value pairs a texture declares itself.
pub open spec fn tex_kvs(t: TextureXml) -> Seq<(Seq<char>, Seq<char>, Option<Seq<char>>)> {
    match t.key_values {
        Some(v) => Seq::new(v@.len(), |i: int| kv_view(v@[i])),
        None => Seq::empty(),
    }
}

/// The key-value pairs gathered from the templates named in `names[i..]`:
/// each non-empty name not seen before is marked seen and, when it names a
/// texture template, that template's own inherited pairs come first and
/// then its declared ones.
pub open spec fn kv_list(
    reg: TemplateRegistry,
    names: Seq<Seq<char>>,
    i: int,
    visited: Seq<Seq<char>>,
    values: Seq<(Seq<char>, Seq<char>, Option<Seq<char>>)>,
    fuel: nat,
) -> (Seq<Seq<char>>, Seq<(Seq<char>, Seq<char>, Option<Seq<char>>)>)
    decreases fuel, names.len() - i,
{
    if i < 0 || i >= names.len() {
        (visited, values)
    } else {
        let n = names[i];
        if n.len() == 0 || visited.contains(n) {
            kv_list(reg, names, i + 1, visited, values, fuel)
        } else {
            let v1 = visited.push(n);
            match lookup(reg.textures@, n) {
                None => kv_list(reg, names, i + 1, v1, values, fuel),
                Some(t) => if fuel == 0 {
                    (v1, values)
                } else {
                    let (v2, vals2) = kv_list(
                        reg,
                        attr_names(opt_view(t.inherits)),
                        0,
                        v1,
                        values,
                        (fuel - 1) as nat,
                    );
                    kv_list(reg, names, i + 1, v2, vals2 + tex_kvs(t), fuel)
                },
            }
        }
    }
}

/// All key-value pairs of a texture: those inherited through its templates,
/// then its own.
pub open spec fn spec_texture_key_values(reg: TemplateRegistry, texture: TextureXml) -> Seq<
    (Seq<char>, Seq<char>, Option<Seq<char>>),
> {
    kv_list(reg, attr_names(opt_view(texture.inherits)), 0, Seq::empty(), Seq::empty(), CHAIN_DEPTH_LIMIT as nat).1
        + tex_kvs(texture)
}

/// Appends the key-value pairs a texture declares itself.
pub fn append_texture_key_values(texture: &TextureXml, values: &mut Vec<TemplateKeyValueInfo>)
    ensures
        info_views(final(values)@) == info_views(old(values)@) + tex_kvs(*texture),
{
    match &texture.key_values {
        None => {
            assert(info_views(values@) == info_views(old(values)@) + Seq::<(Seq<char>, Seq<char>, Option<Seq<char>>)>::empty());
        },
        Some(kvs) => {
            let mut i: usize = 0;
            while i < kvs.len()
                invariant
                    i <= kvs@.len(),
                    info_views(values@) == info_views(old(values)@) + Seq::new(
                        i as nat,
                        |q: int| kv_view(kvs@[q]),
                    ),
                decreases kvs@.len() - i,
            {
                let kv = &kvs[i];
                let info = TemplateKeyValueInfo {
                    key: copy_string(&kv.key),
                    value: copy_string(&kv.value),
                    value_type: crate::template_xml::copy_opt(&kv.value_type),
                };
                let ghost before = values@;
                values.push(info);
                assert(info_views(values@) == info_views(before).push(info_view(info)));
                assert(Seq::new((i + 1) as nat, |q: int| kv_view(kvs@[q])) == Seq::new(
                    i as nat,
                    |q: int| kv_view(kvs@[q]),
                ).push(kv_view(kvs@[i as int])));
                i = i + 1;
            }
        },
    }
}

fn copy_chars(v: &Vec<char>) -> (r: Vec<char>)
    ensures
        r@ == v@,
{
    let mut out: Vec<char> = Vec::new();
    let mut j: usize = 0;
    while j < v.len()
        invariant
            j <= v@.len(),
            out@ == v@.subrange(0, j as int),
        decreases v@.len() - j,
    {
        out.push(v[j]);
        j = j + 1;
    }
    assert(v@.subrange(0, v@.len() as int) == v@);
    out
}

/// The widget types of a chain of templates.
pub open spec fn chain_types(chain: Seq<&TemplateEntry>) -> Seq<Seq<char>> {
    Seq::new(chain.len(), |i: int| chain[i].widget_type@)
}

/// The first non-empty widget type from position `i` on.
pub open spec fn first_typed(types: Seq<Seq<char>>, i: int) -> Option<Seq<char>>
    decreases types.len() - i,
{
    if i < 0 || i >= types.len() {
        None
    } else if types[i].len() > 0 {
        Some(types[i])
    } else {
        first_typed(types, i + 1)
    }
}

/// The frame type of a chain (bases first): the most derived template's
/// widget type; when that is empty, the first non-empty one from the base
/// on; `Frame` when no template has one.
pub open spec fn spec_frame_type(types: Seq<Seq<char>>) -> Seq<char> {
    if types.len() > 0 && types.last().len() > 0 {
        types.last()
    } else {
        match first_typed(types, 0) {
            Some(t) => t,
            None => "Frame"@,
        }
    }
}

/// The frame type an inheritance chain (bases first) creates: the most
/// derived template's widget type, else the first one set from the base
/// on, else `Frame`.
pub fn resolve_frame_type(chain: &[&TemplateEntry]) -> (r: String)
    ensures
        r@ == spec_frame_type(chain_types(chain@)),
{
    let ghost types = chain_types(chain@);
    let n = chain.len();
    if n > 0 && chain[n - 1].widget_type.as_str().unicode_len() > 0 {
        proof {
            assert(types.last() == chain@[n - 1].widget_type@);
            assert(chain@[n - 1].widget_type@.len() > 0);
        }
        return copy_string(&chain[n - 1].widget_type);
    }
    assert(!(types.len() > 0 && types.last().len() > 0)) by {
        if n > 0 {
            assert(types.last() == chain@[n - 1].widget_type@);
        }
    }
    let mut i: usize = 0;
    while i < n
        invariant
            n == chain@.len(),
            types == chain_types(chain@),
            !(types.len() > 0 && types.last().len() > 0),
            i <= n,
            first_typed(types, 0) == first_typed(types, i as int),
        decreases n - i,
    {
        if chain[i].widget_type.as_str().unicode_len() > 0 {
            assert(types[i as int] == chain@[i as int].widget_type@);
            return copy_string(&chain[i].widget_type);
        }
        assert(types[i as int].len() == 0);
        i = i + 1;
    }
    proof {
        reveal_strlit("Frame");
    }
    string_from_chars(chars_of("Frame").as_slice())
}

/// The key-value pairs a frame template declares.
pub open spec fn frame_kvs(f: FrameXml) -> Seq<(Seq<char>, Seq<char>, Option<Seq<char>>)> {
    Seq::new(f.key_values@.len(), |i: int| kv_view(f.key_values@[i]))
}

/// The key-value pairs of a chain of templates, in chain order.
pub open spec fn chain_kvs(chain: Seq<&TemplateEntry>) -> Seq<(Seq<char>, Seq<char>, Option<Seq<char>>)>
    decreases chain.len(),
{
    if chain.len() == 0 {
        Seq::empty()
    } else {
        chain_kvs(chain.drop_last()) + frame_kvs(chain.last().frame)
    }
}

/// The key-value pairs of every template of an inheritance chain, bases
/// first, each template's in declaration order.
pub fn collect_key_values(chain: &[&TemplateEntry]) -> (r: Vec<TemplateKeyValueInfo>)
    ensures
        info_views(r@) == chain_kvs(chain@),
{
    let mut out: Vec<TemplateKeyValueInfo> = Vec::new();
    let mut i: usize = 0;
    while i < chain.len()
        invariant
            i <= chain@.len(),
            info_views(out@) == chain_kvs(chain@.subrange(0, i as int)),
        decreases chain@.len() - i,
    {
        let kvs = &chain[i].frame.key_values;
        let ghost before = out@;
        let mut j: usize = 0;
        while j < kvs.len()
            invariant
                j <= kvs@.len(),
                info_views(out@) == info_views(before) + Seq::new(j as nat, |q: int| kv_view(kvs@[q])),
            decreases kvs@.len() - j,
        {
            let kv = &kvs[j];
            let info = TemplateKeyValueInfo {
                key: copy_string(&kv.key),
                value: copy_string(&kv.value),
                value_type: copy_opt(&kv.value_type),
            };
            let ghost b = out@;
            out.push(info);
            assert(info_views(out@) == info_views(b).push(info_view(info)));
            assert(Seq::new((j + 1) as nat, |q: int| kv_view(kvs@[q])) == Seq::new(
                j as nat,
                |q: int| kv_view(kvs@[q]),
            ).push(kv_view(kvs@[j as int])));
            j = j + 1;
        }
        assert(Seq::new(kvs@.len(), |q: int| kv_view(kvs@[q])) == frame_kvs(chain@[i as int].frame));
        assert(chain@.subrange(0, i + 1).drop_last() == chain@.subrange(0, i as int));
        assert(chain@.subrange(0, i + 1).last() == chain@[i as int]);
        i = i + 1;
    }
    assert(chain@.subrange(0, chain@.len() as int) == chain@);
    out
}

/// Gathers the key-value pairs inherited through the templates an
/// `inherits` list names.
fn collect_texture_key_values_from_inherits(
    reg: &TemplateRegistry,
    inherits: &Option<String>,
    visited: &mut Vec<Vec<char>>,
    values: &mut Vec<TemplateKeyValueInfo>,
    fuel: u64,
)
    requires
        reg.wf(),
    ensures
        (char_views(final(visited)@), info_views(final(values)@)) == kv_list(
            *reg,
            attr_names(opt_view(*inherits)),
            0,
            char_views(old(visited)@),
            info_views(old(values)@),
            fuel as nat,
        ),
    decreases fuel,
{
    let inh = match inherits {
        Some(a) => a,
        None => {
            return;
        },
    };
    let names = split_names(inh.as_str());
    let ghost ns = name_list(inh@);
    let mut i: usize = 0;
    while i < names.len()
        invariant
            reg.wf(),
            ns == attr_names(opt_view(*inherits)),
            names@.len() == ns.len(),
            forall|q: int| 0 <= q < names@.len() ==> #[trigger] names@[q]@ == ns[q],
            i <= names@.len(),
            kv_list(*reg, ns, 0, char_views(old(visited)@), info_views(old(values)@), fuel as nat)
                == kv_list(*reg, ns, i as int, char_views(visited@), info_views(values@), fuel as nat),
        decreases names@.len() - i,
    {
        let name = &names[i];
        let ghost vis0 = char_views(visited@);
        let ghost vals0 = info_views(values@);
        if name.len() == 0 || seen(visited, name) {
            assert(kv_list(*reg, ns, i as int, vis0, vals0, fuel as nat) == kv_list(
                *reg,
                ns,
                i + 1,
                vis0,
                vals0,
                fuel as nat,
            ));
            i = i + 1;
            continue;
        }
        visited.push(copy_chars(name));
        assert(char_views(visited@) == vis0.push(name@));
        let name_str = string_from_chars(name.as_slice());
        match get_ref(&reg.textures, name_str.as_str()) {
            None => {
                assert(kv_list(*reg, ns, i as int, vis0, vals0, fuel as nat) == kv_list(
                    *reg,
                    ns,
                    i + 1,
                    char_views(visited@),
                    vals0,
                    fuel as nat,
                ));
            },
            Some(t) => {
                if fuel == 0 {
                    assert(kv_list(*reg, ns, i as int, vis0, vals0, fuel as nat) == (
                        char_views(visited@),
                        vals0,
                    ));
                    return;
                }
                collect_texture_key_values_from_inherits(reg, &t.inherits, visited, values, fuel - 1);
                append_texture_key_values(t, values);
                assert(kv_list(*reg, ns, i as int, vis0, vals0, fuel as nat) == kv_list(
                    *reg,
                    ns,
                    i + 1,
                    char_views(visited@),
                    info_views(values@),
                    fuel as nat,
                ));
            },
        }
        i = i + 1;
    }
}

/// All key-value pairs of a texture: those inherited through its templates
/// (each template once), then its own.
pub fn collect_texture_key_values(reg: &TemplateRegistry, texture: &TextureXml) -> (r: Vec<TemplateKeyValueInfo>)
    requires
        reg.wf(),
    ensures
        info_views(r@) == spec_texture_key_values(*reg, *texture),
{
    let mut values: Vec<TemplateKeyValueInfo> = Vec::new();
    let mut visited: Vec<Vec<char>> = Vec::new();
    assert(char_views(visited@) == Seq::<Seq<char>>::empty());
    assert(info_views(values@) == Seq::<(Seq<char>, Seq<char>, Option<Seq<char>>)>::empty());
    collect_texture_key_values_from_inherits(reg, &texture.inherits, &mut visited, &mut values, CHAIN_DEPTH_LIMIT);
    append_texture_key_values(texture, &mut values);
    values
}

/// A texture's attributes as character sequences.
pub struct TexView {
    pub name: Option<Seq<char>>,
    pub parent_key: Option<Seq<char>>,
    pub parent_array: Option<Seq<char>>,
    pub is_virtual: Option<bool>,
    pub inherits: Option<Seq<char>>,
    pub mixin: Option<Seq<char>>,
    pub file: Option<Seq<char>>,
    pub atlas: Option<Seq<char>>,
    pub use_atlas_size: Option<bool>,
    pub horiz_tile: Option<bool>,
    pub vert_tile: Option<bool>,
    pub h_wrap_mode: Option<Seq<char>>,
    pub v_wrap_mode: Option<Seq<char>>,
    pub hidden: Option<bool>,
    pub set_all_points: Option<bool>,
    pub alpha_mode: Option<Seq<char>>,
    pub blend_mode: Option<Seq<char>>,
    pub key_values: Seq<(Seq<char>, Seq<char>, Option<Seq<char>>)>,
    pub has_key_values: bool,
    pub animations: Option<Seq<(Option<Seq<char>>, Option<Seq<char>>)>>,
    pub scripts: Option<(Seq<Seq<char>>, Seq<Seq<char>>)>,
    pub masked_textures: Option<Seq<Option<Seq<char>>>>,
}

/// The attributes of a texture.
pub open spec fn tex_view(t: TextureXml) -> TexView {
    TexView {
        name: opt_view(t.name),
        parent_key: opt_view(t.parent_key),
        parent_array: opt_view(t.parent_array),
        is_virtual: t.is_virtual,
        inherits: opt_view(t.inherits),
        mixin: opt_view(t.mixin),
        file: opt_view(t.file),
        atlas: opt_view(t.atlas),
        use_atlas_size: t.use_atlas_size,
        horiz_tile: t.horiz_tile,
        vert_tile: t.vert_tile,
        h_wrap_mode: opt_view(t.h_wrap_mode),
        v_wrap_mode: opt_view(t.v_wrap_mode),
        hidden: t.hidden,
        set_all_points: t.set_all_points,
        alpha_mode: opt_view(t.alpha_mode),
        blend_mode: opt_view(t.blend_mode),
        key_values: tex_kvs(t),
        has_key_values: t.key_values is Some,
        animations: crate::template_xml::anims_view(t.animations),
        scripts: crate::template_xml::scripts_view(t.scripts),
        masked_textures: crate::template_xml::masked_view(t.masked_textures),
    }
}

/// `src` where it has a value, else `dst`.
pub open spec fn over<T>(dst: Option<T>, src: Option<T>) -> Option<T> {
    if src is Some {
        src
    } else {
        dst
    }
}

/// The blend mode a texture declares: its `alphaMode`, else its `blendMode`.
pub open spec fn effective_blend_mode(t: TexView) -> Option<Seq<char>> {
    over(t.blend_mode, t.alpha_mode)
}

/// `dst` with every attribute `src` sets overlaid; a blend mode `src`
/// declares sets both blend attributes.
pub open spec fn merge_view(dst: TexView, src: TexView) -> TexView {
    TexView {
        file: over(dst.file, src.file),
        atlas: over(dst.atlas, src.atlas),
        use_atlas_size: over(dst.use_atlas_size, src.use_atlas_size),
        horiz_tile: over(dst.horiz_tile, src.horiz_tile),
        vert_tile: over(dst.vert_tile, src.vert_tile),
        h_wrap_mode: over(dst.h_wrap_mode, src.h_wrap_mode),
        v_wrap_mode: over(dst.v_wrap_mode, src.v_wrap_mode),
        hidden: over(dst.hidden, src.hidden),
        set_all_points: over(dst.set_all_points, src.set_all_points),
        mixin: over(dst.mixin, src.mixin),
        alpha_mode: over(dst.alpha_mode, effective_blend_mode(src)),
        blend_mode: over(dst.blend_mode, effective_blend_mode(src)),
        ..dst
    }
}

/// `base` with each of `ts` overlaid in turn.
pub open spec fn merge_all(base: TexView, ts: Seq<TexView>) -> TexView
    decreases ts.len(),
{
    if ts.len() == 0 {
        base
    } else {
        merge_view(merge_all(base, ts.drop_last()), ts.last())
    }
}

/// The registered texture templates a list of names finds, in order.
pub open spec fn found_templates(reg: TemplateRegistry, names: Seq<Seq<char>>) -> Seq<TexView>
    decreases names.len(),
{
    if names.len() == 0 {
        Seq::empty()
    } else {
        found_templates(reg, names.drop_last()) + match lookup(reg.textures@, names.last()) {
            Some(t) => seq![tex_view(t)],
            None => Seq::empty(),
        }
    }
}

/// A texture with its templates applied: the first template found is the
/// base, the others and then the texture itself are overlaid on it, and the
/// texture keeps its own name, parent key, parent array, virtual flag,
/// `inherits`, animations, scripts and masked textures. A texture that
/// inherits nothing found is returned as it is.
pub open spec fn spec_resolve_texture_inheritance(reg: TemplateRegistry, texture: TextureXml) -> TexView {
    let tv = tex_view(texture);
    match texture.inherits {
        None => tv,
        Some(inh) => {
            let found = found_templates(reg, name_list(inh@));
            if found.len() == 0 {
                tv
            } else {
                let m = merge_view(merge_all(found[0], found.subrange(1, found.len() as int)), tv);
                TexView {
                    name: tv.name,
                    parent_key: tv.parent_key,
                    parent_array: tv.parent_array,
                    is_virtual: tv.is_virtual,
                    inherits: tv.inherits,
                    animations: tv.animations,
                    scripts: tv.scripts,
                    masked_textures: tv.masked_textures,
                    ..m
                }
            }
        },
    }
}

fn copy_key_values(kvs: &Option<Vec<KeyValueXml>>) -> (r: Option<Vec<KeyValueXml>>)
    ensures
        r is Some == kvs is Some,
        r is Some ==> Seq::new(r->Some_0@.len(), |i: int| kv_view(r->Some_0@[i])) == Seq::new(
            kvs->Some_0@.len(),
            |i: int| kv_view(kvs->Some_0@[i]),
        ),
{
    match kvs {
        None => None,
        Some(v) => {
            let mut out: Vec<KeyValueXml> = Vec::new();
            let mut i: usize = 0;
            while i < v.len()
                invariant
                    i <= v@.len(),
                    out@.len() == i,
                    forall|q: int| 0 <= q < i ==> kv_view(#[trigger] out@[q]) == kv_view(v@[q]),
                decreases v@.len() - i,
            {
                out.push(KeyValueXml {
                    key: copy_string(&v[i].key),
                    value: copy_string(&v[i].value),
                    value_type: crate::template_xml::copy_opt(&v[i].value_type),
                });
                i = i + 1;
            }
            assert(Seq::new(out@.len(), |i: int| kv_view(out@[i])) == Seq::new(
                v@.len(),
                |i: int| kv_view(v@[i]),
            ));
            Some(out)
        },
    }
}

/// A copy of a texture.
pub fn copy_texture_xml(t: &TextureXml) -> (r: TextureXml)
    ensures
        tex_view(r) == tex_view(*t),
{
    let r = TextureXml {
        name: copy_opt(&t.name),
        parent_key: copy_opt(&t.parent_key),
        parent_array: copy_opt(&t.parent_array),
        is_virtual: t.is_virtual,
        inherits: copy_opt(&t.inherits),
        mixin: copy_opt(&t.mixin),
        file: copy_opt(&t.file),
        atlas: copy_opt(&t.atlas),
        use_atlas_size: t.use_atlas_size,
        horiz_tile: t.horiz_tile,
        vert_tile: t.vert_tile,
        h_wrap_mode: copy_opt(&t.h_wrap_mode),
        v_wrap_mode: copy_opt(&t.v_wrap_mode),
        hidden: t.hidden,
        set_all_points: t.set_all_points,
        alpha_mode: copy_opt(&t.alpha_mode),
        blend_mode: copy_opt(&t.blend_mode),
        key_values: copy_key_values(&t.key_values),
        animations: crate::template_xml::copy_anims(&t.animations),
        scripts: crate::template_xml::copy_scripts(&t.scripts),
        masked_textures: crate::template_xml::copy_masked(&t.masked_textures),
    };
    assert(tex_kvs(r) == tex_kvs(*t));
    r
}

fn over_string(dst: &mut Option<String>, src: &Option<String>)
    ensures
        opt_view(*final(dst)) == over(opt_view(*old(dst)), opt_view(*src)),
{
    if src.is_some() {
        *dst = crate::template_xml::copy_opt(src);
    }
}

/// Sets both blend attributes of `dst` to the blend mode `src` declares, if any.
pub fn merge_texture_blend_mode(dst: &mut TextureXml, src: &TextureXml)
    ensures
        tex_view(*final(dst)) == (TexView {
            alpha_mode: over(tex_view(*old(dst)).alpha_mode, effective_blend_mode(tex_view(*src))),
            blend_mode: over(tex_view(*old(dst)).blend_mode, effective_blend_mode(tex_view(*src))),
            ..tex_view(*old(dst))
        }),
{
    let mode = if src.alpha_mode.is_some() {
        crate::template_xml::copy_opt(&src.alpha_mode)
    } else {
        crate::template_xml::copy_opt(&src.blend_mode)
    };
    match mode {
        None => {},
        Some(m) => {
            dst.alpha_mode = Some(copy_string(&m));
            dst.blend_mode = Some(m);
        },
    }
}

/// Overlays every attribute `src` sets onto `dst`.
pub fn merge_texture_fields(dst: &mut TextureXml, src: &TextureXml)
    ensures
        tex_view(*final(dst)) == merge_view(tex_view(*old(dst)), tex_view(*src)),
{
    over_string(&mut dst.file, &src.file);
    over_string(&mut dst.atlas, &src.atlas);
    if src.use_atlas_size.is_some() {
        dst.use_atlas_size = src.use_atlas_size;
    }
    if src.horiz_tile.is_some() {
        dst.horiz_tile = src.horiz_tile;
    }
    if src.vert_tile.is_some() {
        dst.vert_tile = src.vert_tile;
    }
    over_string(&mut dst.h_wrap_mode, &src.h_wrap_mode);
    over_string(&mut dst.v_wrap_mode, &src.v_wrap_mode);
    if src.hidden.is_some() {
        dst.hidden = src.hidden;
    }
    if src.set_all_points.is_some() {
        dst.set_all_points = src.set_all_points;
    }
    over_string(&mut dst.mixin, &src.mixin);
    merge_texture_blend_mode(dst, src);
}

/// A texture with its templates applied (see `spec_resolve_texture_inheritance`).
pub fn resolve_texture_inheritance(reg: &TemplateRegistry, texture: &TextureXml) -> (r: TextureXml)
    ensures
        tex_view(r) == spec_resolve_texture_inheritance(*reg, *texture),
{
    let inherits = match &texture.inherits {
        None => {
            return copy_texture_xml(texture);
        },
        Some(i) => i,
    };
    let names = split_names(inherits.as_str());
    let ghost ns = name_list(inherits@);
    let mut templates: Vec<&TextureXml> = Vec::new();
    let mut i: usize = 0;
    assert(ns.subrange(0, 0) == Seq::<Seq<char>>::empty());
    while i < names.len()
        invariant
            names@.len() == ns.len(),
            forall|q: int| 0 <= q < names@.len() ==> #[trigger] names@[q]@ == ns[q],
            i <= names@.len(),
            templates@.len() == found_templates(*reg, ns.subrange(0, i as int)).len(),
            forall|q: int| 0 <= q < templates@.len() ==> tex_view(*#[trigger] templates@[q]) == found_templates(
                *reg,
                ns.subrange(0, i as int),
            )[q],
        decreases names@.len() - i,
    {
        let name = string_from_chars(names[i].as_slice());
        proof {
            assert(ns.subrange(0, i + 1).drop_last() == ns.subrange(0, i as int));
            assert(ns.subrange(0, i + 1).last() == ns[i as int]);
        }
        match get_ref(&reg.textures, name.as_str()) {
            Some(t) => {
                templates.push(t);
            },
            None => {},
        }
        i = i + 1;
    }
    assert(ns.subrange(0, ns.len() as int) == ns);
    let ghost found = found_templates(*reg, ns);
    if templates.len() == 0 {
        return copy_texture_xml(texture);
    }
    let mut merged = copy_texture_xml(templates[0]);
    let mut k: usize = 1;
    while k < templates.len()
        invariant
            templates@.len() == found.len(),
            forall|q: int| 0 <= q < templates@.len() ==> tex_view(*#[trigger] templates@[q]) == found[q],
            1 <= k <= templates@.len(),
            tex_view(merged) == merge_all(found[0], found.subrange(1, k as int)),
        decreases templates@.len() - k,
    {
        proof {
            assert(found.subrange(1, k + 1).drop_last() == found.subrange(1, k as int));
            assert(found.subrange(1, k + 1).last() == found[k as int]);
        }
        merge_texture_fields(&mut merged, templates[k]);
        k = k + 1;
    }
    merge_texture_fields(&mut merged, texture);
    merged.name = crate::template_xml::copy_opt(&texture.name);
    merged.parent_key = crate::template_xml::copy_opt(&texture.parent_key);
    merged.parent_array = crate::template_xml::copy_opt(&texture.parent_array);
    merged.is_virtual = texture.is_virtual;
    merged.inherits = crate::template_xml::copy_opt(&texture.inherits);
    merged.animations = crate::template_xml::copy_anims(&texture.animations);
    merged.scripts = crate::template_xml::copy_scripts(&texture.scripts);
    merged.masked_textures = crate::template_xml::copy_masked(&texture.masked_textures);
    merged
}

/// `r` holds every attribute that `src` sets: each overlay attribute `src`
/// has a value for, its `alphaMode`, and its `blendMode` when it declares no
/// `alphaMode`.
pub open spec fn holds_attributes_set_by(r: TexView, src: TexView) -> bool {
    &&& src.file is Some ==> r.file == src.file
    &&& src.atlas is Some ==> r.atlas == src.atlas
    &&& src.use_atlas_size is Some ==> r.use_atlas_size == src.use_atlas_size
    &&& src.horiz_tile is Some ==> r.horiz_tile == src.horiz_tile
    &&& src.vert_tile is Some ==> r.vert_tile == src.vert_tile
    &&& src.h_wrap_mode is Some ==> r.h_wrap_mode == src.h_wrap_mode
    &&& src.v_wrap_mode is Some ==> r.v_wrap_mode == src.v_wrap_mode
    &&& src.hidden is Some ==> r.hidden == src.hidden
    &&& src.set_all_points is Some ==> r.set_all_points == src.set_all_points
    &&& src.mixin is Some ==> r.mixin == src.mixin
    &&& src.alpha_mode is Some ==> r.alpha_mode == src.alpha_mode
    &&& src.alpha_mode is None && src.blend_mode is Some ==> r.blend_mode == src.blend_mode
}

/// `r` keeps `dst`'s value of every overlay attribute that `src` leaves unset.
pub open spec fn keeps_attributes_unset_by(r: TexView, dst: TexView, src: TexView) -> bool {
    &&& src.file is None ==> r.file == dst.file
    &&& src.atlas is None ==> r.atlas == dst.atlas
    &&& src.use_atlas_size is None ==> r.use_atlas_size == dst.use_atlas_size
    &&& src.horiz_tile is None ==> r.horiz_tile == dst.horiz_tile
    &&& src.vert_tile is None ==> r.vert_tile == dst.vert_tile
    &&& src.h_wrap_mode is None ==> r.h_wrap_mode == dst.h_wrap_mode
    &&& src.v_wrap_mode is None ==> r.v_wrap_mode == dst.v_wrap_mode
    &&& src.hidden is None ==> r.hidden == dst.hidden
    &&& src.set_all_points is None ==> r.set_all_points == dst.set_all_points
    &&& src.mixin is None ==> r.mixin == dst.mixin
    &&& src.alpha_mode is None && src.blend_mode is None ==> r.alpha_mode == dst.alpha_mode
        && r.blend_mode == dst.blend_mode
}

/// Overlaying `src` onto `dst` gives every attribute `src` sets `src`'s
/// value (`setAllPoints` included), puts the blend mode `src` declares in
/// both blend attributes, and keeps `dst`'s value of every other attribute,
/// along with `dst`'s identity, key values and animations.
pub proof fn lemma_overlay_takes_set_attributes(dst: TexView, src: TexView)
    ensures
        holds_attributes_set_by(merge_view(dst, src), src),
        keeps_attributes_unset_by(merge_view(dst, src), dst, src),
        src.alpha_mode is Some ==> merge_view(dst, src).blend_mode == src.alpha_mode,
        src.alpha_mode is None && src.blend_mode is Some ==> merge_view(dst, src).alpha_mode
            == src.blend_mode,
        merge_view(dst, src).name == dst.name,
        merge_view(dst, src).inherits == dst.inherits,
        merge_view(dst, src).key_values == dst.key_values,
        merge_view(dst, src).animations == dst.animations,
{
}

/// A texture's own attributes win over everything it inherits: whatever
/// templates it names, each attribute the texture sets (`setAllPoints`
/// included) has the texture's value after its templates are applied.
pub proof fn lemma_texture_attributes_win_over_templates(reg: TemplateRegistry, texture: TextureXml)
    ensures
        holds_attributes_set_by(
            spec_resolve_texture_inheritance(reg, texture),
            tex_view(texture),
        ),
        spec_resolve_texture_inheritance(reg, texture).name == tex_view(texture).name,
        spec_resolve_texture_inheritance(reg, texture).inherits == tex_view(texture).inherits,
{
    let tv = tex_view(texture);
    match texture.inherits {
        None => {},
        Some(inh) => {
            let found = found_templates(reg, name_list(inh@));
            if found.len() != 0 {
                lemma_overlay_takes_set_attributes(
                    merge_all(found[0], found.subrange(1, found.len() as int)),
                    tv,
                );
            }
        },
    }
}

// ---------------------------------------------------------------------------
// Built-in templates
// ---------------------------------------------------------------------------

/// A frame type built into the game engine that behaves as a template: it
/// inherits from a base template and applies a mixin.
#[derive(Debug, Clone, Copy, PartialEq, Eq)]
pub struct IntrinsicFrameTemplate {
    pub name: &'static str,
    pub widget_type: &'static str,
    pub inherits: &'static str,
    pub mixin: &'static str,
}

/// The engine frame types registered as templates.
pub fn intrinsic_frame_templates() -> (r: Vec<IntrinsicFrameTemplate>)
    ensures
        r@.len() == 4,
        r@[0].name@ == "WoWScrollBoxList"@ && r@[0].widget_type@ == "Frame"@ && r@[0].inherits@
            == "ScrollBoxBaseTemplate"@ && r@[0].mixin@ == "ScrollBoxListMixin"@,
        r@[1].name@ == "WoWScrollBox"@ && r@[1].widget_type@ == "Frame"@ && r@[1].inherits@
            == "ScrollBoxBaseTemplate"@ && r@[1].mixin@ == "ScrollBoxBaseMixin"@,
        r@[2].name@ == "WoWTrimScrollBar"@ && r@[2].widget_type@ == "EventFrame"@ && r@[2].inherits@
            == "WowTrimScrollBarTemplate"@ && r@[2].mixin@ == ""@,
        r@[3].name@ == "UIThemeContainerFrame"@ && r@[3].widget_type@ == "Frame"@ && r@[3].inherits@
            == ""@ && r@[3].mixin@ == "UIThemeContainerMixin"@,
{
    let mut v: Vec<IntrinsicFrameTemplate> = Vec::new();
    v.push(IntrinsicFrameTemplate {
        name: "WoWScrollBoxList",
        widget_type: "Frame",
        inherits: "ScrollBoxBaseTemplate",
        mixin: "ScrollBoxListMixin",
    });
    v.push(IntrinsicFrameTemplate {
        name: "WoWScrollBox",
        widget_type: "Frame",
        inherits: "ScrollBoxBaseTemplate",
        mixin: "ScrollBoxBaseMixin",
    });
    v.push(IntrinsicFrameTemplate {
        name: "WoWTrimScrollBar",
        widget_type: "EventFrame",
        inherits: "WowTrimScrollBarTemplate",
        mixin: "",
    });
    v.push(IntrinsicFrameTemplate {
        name: "UIThemeContainerFrame",
        widget_type: "Frame",
        inherits: "",
        mixin: "UIThemeContainerMixin",
    });
    v
}

/// An intrinsic type's mixin attribute: none for an empty name.
pub fn intrinsic_mixin(mixin: &str) -> (r: Option<String>)
    ensures
        opt_view(r) == (if mixin@.len() == 0 {
            None
        } else {
            Some(mixin@)
        }),
{
    let v = chars_of(mixin);
    if v.len() == 0 {
        None
    } else {
        Some(owned(mixin))
    }
}

/// The virtual frame of an intrinsic type: its inherits and mixin, nothing else.
pub open spec fn spec_intrinsic_frame(f: FrameXml, inherits: Seq<char>, mixin: Seq<char>) -> bool {
    frame_attrs(
        f,
        None,
        None,
        Some(inherits),
        if mixin.len() == 0 {
            None
        } else {
            Some(mixin)
        },
        Some(true),
        None,
        None,
    ) && f.children@.len() == 0
}

/// The virtual frame of an intrinsic type.
pub fn intrinsic_frame_xml(spec: &IntrinsicFrameTemplate) -> (r: FrameXml)
    ensures
        spec_intrinsic_frame(r, spec.inherits@, spec.mixin@),
{
    let mut f = FrameXml::empty();
    f.inherits = Some(owned(spec.inherits));
    f.mixin = intrinsic_mixin(spec.mixin);
    f.is_virtual = Some(true);
    f
}

/// Registers one intrinsic type as a template.
pub fn register_intrinsic_frame_template(reg: &mut TemplateRegistry, spec: &IntrinsicFrameTemplate)
    requires
        old(reg).wf(),
    ensures
        final(reg).wf(),
        registered_as(*final(reg), spec.name@, spec.widget_type@, |f: FrameXml| spec_intrinsic_frame(f, spec.inherits@, spec.mixin@)),
        forall|k: Seq<char>| k != spec.name@ ==> #[trigger] lookup(final(reg).entries@, k) == lookup(old(reg).entries@, k),
        final(reg).textures == old(reg).textures,
        final(reg).anim_groups == old(reg).anim_groups,
        final(reg).font_strings == old(reg).font_strings,
{
    register_template(reg, spec.name, spec.widget_type, intrinsic_frame_xml(spec));
}

/// The names of the intrinsic templates.
pub open spec fn intrinsic_template_names() -> Seq<Seq<char>> {
    seq!["WoWScrollBoxList"@, "WoWScrollBox"@, "WoWTrimScrollBar"@, "UIThemeContainerFrame"@, "ButtonFrameTemplate"@]
}

/// Registers every intrinsic type as a template.
pub fn register_intrinsic_frame_templates(reg: &mut TemplateRegistry)
    requires
        old(reg).wf(),
    ensures
        final(reg).wf(),
        registered_as(*final(reg), "WoWScrollBoxList"@, "Frame"@, |f: FrameXml| spec_intrinsic_frame(f, "ScrollBoxBaseTemplate"@, "ScrollBoxListMixin"@)),
        registered_as(*final(reg), "WoWScrollBox"@, "Frame"@, |f: FrameXml| spec_intrinsic_frame(f, "ScrollBoxBaseTemplate"@, "ScrollBoxBaseMixin"@)),
        registered_as(*final(reg), "WoWTrimScrollBar"@, "EventFrame"@, |f: FrameXml| spec_intrinsic_frame(f, "WowTrimScrollBarTemplate"@, ""@)),
        registered_as(*final(reg), "UIThemeContainerFrame"@, "Frame"@, |f: FrameXml| spec_intrinsic_frame(f, ""@, "UIThemeContainerMixin"@)),
        forall|k: Seq<char>|
            k != "WoWScrollBoxList"@ && k != "WoWScrollBox"@ && k != "WoWTrimScrollBar"@ && k != "UIThemeContainerFrame"@
                ==> #[trigger] lookup(final(reg).entries@, k) == lookup(old(reg).entries@, k),
        final(reg).textures == old(reg).textures,
        final(reg).anim_groups == old(reg).anim_groups,
        final(reg).font_strings == old(reg).font_strings,
{
    proof {
        reveal_strlit("WoWScrollBoxList");
        reveal_strlit("WoWScrollBox");
        reveal_strlit("WoWTrimScrollBar");
        reveal_strlit("UIThemeContainerFrame");
        reveal_strlit("");
        reveal_strlit("ScrollBoxListMixin");
        reveal_strlit("ScrollBoxBaseMixin");
        reveal_strlit("UIThemeContainerMixin");
    }
    let specs = intrinsic_frame_templates();
    register_intrinsic_frame_template(reg, &specs[0]);
    register_intrinsic_frame_template(reg, &specs[1]);
    assert("WoWScrollBoxList"@.len() == 16);
    assert("WoWScrollBox"@.len() == 12);
    assert("WoWScrollBoxList"@ != "WoWScrollBox"@);
    register_intrinsic_frame_template(reg, &specs[2]);
    assert("WoWScrollBoxList"@[3] == 'S' && "WoWTrimScrollBar"@[3] == 'T');
    assert("WoWScrollBoxList"@ != "WoWTrimScrollBar"@);
    assert("WoWTrimScrollBar"@.len() == 16);
    assert("WoWScrollBox"@ != "WoWTrimScrollBar"@);
    register_intrinsic_frame_template(reg, &specs[3]);
    assert("UIThemeContainerFrame"@.len() == 21);
    assert("WoWScrollBoxList"@ != "UIThemeContainerFrame"@);
    assert("WoWScrollBox"@ != "UIThemeContainerFrame"@);
    assert("WoWTrimScrollBar"@ != "UIThemeContainerFrame"@);
}

/// The button frame template of the intrinsic set: a virtual frame whose
/// one child is the `$parentInset` frame (parent key `Inset`) inheriting
/// `InsetFrameTemplate`.
pub open spec fn spec_intrinsic_button_frame(f: FrameXml) -> bool {
    &&& frame_attrs(f, None, None, None, None, Some(true), None, None)
    &&& f.children@.len() == 1
    &&& f.children@[0] matches crate::template_xml::FrameChildElement::Frame(i) && frame_attrs(
        i,
        Some("$parentInset"@),
        Some("Inset"@),
        Some("InsetFrameTemplate"@),
        None,
        None,
        None,
        None,
    ) && i.children@.len() == 0
}

/// The inset frame of the button frame template.
pub fn button_frame_inset_child() -> (r: crate::template_xml::FrameChildElement)
    ensures
        r matches crate::template_xml::FrameChildElement::Frame(i) && frame_attrs(
            i,
            Some("$parentInset"@),
            Some("Inset"@),
            Some("InsetFrameTemplate"@),
            None,
            None,
            None,
            None,
        ) && i.children@.len() == 0,
{
    let mut f = FrameXml::empty();
    f.name = Some(owned("$parentInset"));
    f.parent_key = Some(owned("Inset"));
    f.inherits = Some(owned("InsetFrameTemplate"));
    crate::template_xml::FrameChildElement::Frame(f)
}

/// The virtual frame of the button frame template: one inset child.
pub fn button_frame_template_xml() -> (r: FrameXml)
    ensures
        spec_intrinsic_button_frame(r),
{
    let mut f = FrameXml::empty();
    f.is_virtual = Some(true);
    f.children.push(button_frame_inset_child());
    f
}

/// Registers the button frame template.
pub fn register_button_frame_template(reg: &mut TemplateRegistry)
    requires
        old(reg).wf(),
    ensures
        final(reg).wf(),
        registered_as(*final(reg), "ButtonFrameTemplate"@, "Frame"@, |f: FrameXml| spec_intrinsic_button_frame(f)),
        forall|k: Seq<char>| k != "ButtonFrameTemplate"@ ==> #[trigger] lookup(final(reg).entries@, k) == lookup(old(reg).entries@, k),
        final(reg).textures == old(reg).textures,
        final(reg).anim_groups == old(reg).anim_groups,
        final(reg).font_strings == old(reg).font_strings,
{
    register_template(reg, "ButtonFrameTemplate", "Frame", button_frame_template_xml());
}

/// Registers the templates of the engine's intrinsic frame types and the
/// button frame template (with its inset child). Every other frame template,
/// and the texture, animation-group and font-string templates, stay as
/// they were.
pub fn register_intrinsic_templates(reg: &mut TemplateRegistry)
    requires
        old(reg).wf(),
    ensures
        final(reg).wf(),
        registered_as(*final(reg), "WoWScrollBoxList"@, "Frame"@, |f: FrameXml| spec_intrinsic_frame(f, "ScrollBoxBaseTemplate"@, "ScrollBoxListMixin"@)),
        registered_as(*final(reg), "WoWScrollBox"@, "Frame"@, |f: FrameXml| spec_intrinsic_frame(f, "ScrollBoxBaseTemplate"@, "ScrollBoxBaseMixin"@)),
        registered_as(*final(reg), "WoWTrimScrollBar"@, "EventFrame"@, |f: FrameXml| spec_intrinsic_frame(f, "WowTrimScrollBarTemplate"@, ""@)),
        registered_as(*final(reg), "UIThemeContainerFrame"@, "Frame"@, |f: FrameXml| spec_intrinsic_frame(f, ""@, "UIThemeContainerMixin"@)),
        registered_as(*final(reg), "ButtonFrameTemplate"@, "Frame"@, |f: FrameXml| spec_intrinsic_button_frame(f)),
        forall|k: Seq<char>|
            !intrinsic_template_names().contains(k) ==> #[trigger] lookup(final(reg).entries@, k) == lookup(
                old(reg).entries@,
                k,
            ),
        final(reg).textures == old(reg).textures,
        final(reg).anim_groups == old(reg).anim_groups,
        final(reg).font_strings == old(reg).font_strings,
{
    let ghost r0 = *reg;
    register_intrinsic_frame_templates(reg);
    proof {
        reveal_strlit("WoWScrollBoxList");
        reveal_strlit("WoWScrollBox");
        reveal_strlit("WoWTrimScrollBar");
        reveal_strlit("UIThemeContainerFrame");
        reveal_strlit("ButtonFrameTemplate");
    }
    register_button_frame_template(reg);
    assert("ButtonFrameTemplate"@.len() == 19);
    assert("WoWScrollBoxList"@.len() == 16);
    assert("WoWScrollBox"@.len() == 12);
    assert("WoWTrimScrollBar"@.len() == 16);
    assert("UIThemeContainerFrame"@.len() == 21);
    assert("WoWScrollBoxList"@ != "ButtonFrameTemplate"@);
    assert("WoWScrollBox"@ != "ButtonFrameTemplate"@);
    assert("WoWTrimScrollBar"@ != "ButtonFrameTemplate"@);
    assert("UIThemeContainerFrame"@ != "ButtonFrameTemplate"@);
    proof {
        let names = intrinsic_template_names();
        assert forall|k: Seq<char>| !names.contains(k) implies #[trigger] lookup(reg.entries@, k) == lookup(
            r0.entries@,
            k,
        ) by {
            assert(names[0] == "WoWScrollBoxList"@ && names[1] == "WoWScrollBox"@);
            assert(names[2] == "WoWTrimScrollBar"@ && names[3] == "UIThemeContainerFrame"@);
            assert(names[4] == "ButtonFrameTemplate"@);
        }
    }
}

/// A named child of a compat template: `$parent<suffix>` with parent key `key`.
pub open spec fn named_child(name: Option<String>, parent_key: Option<String>, suffix: Seq<char>, key: Seq<char>) -> bool {
    opt_view(name) == Some("$parent"@ + suffix) && opt_view(parent_key) == Some(key)
}

/// A frame with exactly these attributes, and no key-value pairs or scripts.
pub open spec fn frame_attrs(
    f: FrameXml,
    name: Option<Seq<char>>,
    parent_key: Option<Seq<char>>,
    inherits: Option<Seq<char>>,
    mixin: Option<Seq<char>>,
    is_virtual: Option<bool>,
    hidden: Option<bool>,
    set_all_points: Option<bool>,
) -> bool {
    &&& opt_view(f.name) == name
    &&& opt_view(f.parent_key) == parent_key
    &&& opt_view(f.inherits) == inherits
    &&& opt_view(f.mixin) == mixin
    &&& f.is_virtual == is_virtual
    &&& f.hidden == hidden
    &&& f.set_all_points == set_all_points
    &&& f.key_values@.len() == 0
    &&& f.scripts is None
}

/// A virtual frame with only a mixin (or none), and nothing else.
pub open spec fn spec_virtual_frame(f: FrameXml, mixin: Option<Seq<char>>) -> bool {
    frame_attrs(f, None, None, None, mixin, Some(true), None, None) && f.children@.len() == 0
}

/// A child frame `$parent<suffix>` under parent key `key`, without children.
pub open spec fn spec_child_frame(
    f: FrameXml,
    suffix: Seq<char>,
    key: Seq<char>,
    inherits: Option<Seq<char>>,
    hidden: Option<bool>,
    set_all_points: Option<bool>,
) -> bool {
    frame_attrs(f, Some("$parent"@ + suffix), Some(key), inherits, None, None, hidden, set_all_points)
        && f.children@.len() == 0
}

/// A texture `$parent<suffix>` under parent key `key`, with nothing else set.
pub open spec fn spec_named_texture(t: TextureXml, suffix: Seq<char>, key: Seq<char>) -> bool {
    &&& named_child(t.name, t.parent_key, suffix, key)
    &&& t.parent_array is None && t.is_virtual is None && t.inherits is None && t.mixin is None
    &&& t.file is None && t.atlas is None && t.use_atlas_size is None
    &&& t.horiz_tile is None && t.vert_tile is None && t.h_wrap_mode is None && t.v_wrap_mode is None
    &&& t.hidden is None && t.set_all_points is None && t.alpha_mode is None && t.blend_mode is None
    &&& t.key_values is None
    &&& t.animations is None && t.scripts is None && t.masked_textures is None
}

/// A font string `$parent<suffix>` under parent key `key`, with nothing else set.
pub open spec fn spec_named_font_string(f: FontStringXml, suffix: Seq<char>, key: Seq<char>) -> bool {
    named_child(f.name, f.parent_key, suffix, key) && f.inherits is None && f.mixin is None
}

/// The background layer of the portrait frame: background, title
/// background and portrait textures, then the title text.
pub open spec fn spec_portrait_frame_layers(ls: Seq<crate::template_xml::LayerXml>) -> bool {
    &&& ls.len() == 1
    &&& opt_view(ls[0].level) == Some("BACKGROUND"@)
    &&& ls[0].elements@.len() == 4
    &&& ls[0].elements@[0] matches crate::template_xml::LayerElement::Texture(t) && spec_named_texture(t, "Bg"@, "Bg"@)
    &&& ls[0].elements@[1] matches crate::template_xml::LayerElement::Texture(t) && spec_named_texture(t, "TitleBg"@, "TitleBg"@)
    &&& ls[0].elements@[2] matches crate::template_xml::LayerElement::Texture(t) && spec_named_texture(t, "Portrait"@, "Portrait"@)
    &&& ls[0].elements@[3] matches crate::template_xml::LayerElement::FontString(f) && spec_named_font_string(f, "TitleText"@, "TitleText"@)
}

/// The portrait frame template: its background layer and a close button.
pub open spec fn spec_portrait_frame(f: FrameXml) -> bool {
    &&& frame_attrs(f, None, None, None, None, Some(true), None, None)
    &&& f.children@.len() == 2
    &&& f.children@[0] matches crate::template_xml::FrameChildElement::Layers(ls) && spec_portrait_frame_layers(ls@)
    &&& f.children@[1] matches crate::template_xml::FrameChildElement::Button(b) && spec_child_frame(b, "CloseButton"@, "CloseButton"@, None, None, None)
}

/// The compat button frame template: a portrait frame with an inset child.
pub open spec fn spec_compat_button_frame(f: FrameXml) -> bool {
    &&& frame_attrs(f, None, None, Some("PortraitFrameTemplate"@), None, Some(true), None, None)
    &&& f.children@.len() == 1
    &&& f.children@[0] matches crate::template_xml::FrameChildElement::Frame(i) && spec_child_frame(i, "Inset"@, "Inset"@, Some("InsetFrameTemplate"@), None, None)
}

/// The maximize/minimize frame: a hidden maximize button and a minimize
/// button, both filling the frame.
pub open spec fn spec_maximize_minimize_frame(f: FrameXml) -> bool {
    &&& frame_attrs(f, None, None, None, Some("MaximizeMinimizeButtonFrameMixin"@), Some(true), None, None)
    &&& f.children@.len() == 2
    &&& f.children@[0] matches crate::template_xml::FrameChildElement::Button(b) && spec_child_frame(b, "MaximizeButton"@, "MaximizeButton"@, None, Some(true), Some(true))
    &&& f.children@[1] matches crate::template_xml::FrameChildElement::Button(b) && spec_child_frame(b, "MinimizeButton"@, "MinimizeButton"@, None, None, Some(true))
}

/// A panel button: its text.
pub open spec fn spec_panel_button(f: FrameXml) -> bool {
    &&& frame_attrs(f, None, None, None, None, Some(true), None, None)
    &&& f.children@.len() == 1
    &&& f.children@[0] matches crate::template_xml::FrameChildElement::ButtonText(t) && spec_named_font_string(t, "Text"@, "Text"@)
}

/// A panel scroll frame: its scroll bar.
pub open spec fn spec_panel_scroll_frame(f: FrameXml) -> bool {
    &&& frame_attrs(f, None, None, None, None, Some(true), None, None)
    &&& f.children@.len() == 1
    &&& f.children@[0] matches crate::template_xml::FrameChildElement::Slider(b) && spec_child_frame(b, "ScrollBar"@, "ScrollBar"@, None, None, None)
}

/// `name` is registered as a frame template of type `widget_type` whose
/// frame is `frame`.
pub open spec fn registered_as(reg: TemplateRegistry, name: Seq<char>, widget_type: Seq<char>, frame: spec_fn(FrameXml) -> bool) -> bool {
    lookup(reg.entries@, name) matches Some(e) && e.name@ == name && e.widget_type@ == widget_type && frame(e.frame)
}

fn parent_name(suffix: &str) -> (r: String)
    ensures
        r@ == "$parent"@ + suffix@,
{
    let mut v = chars_of("$parent");
    crate::text::push_str(&mut v, suffix);
    string_from_chars(v.as_slice())
}

/// A texture of a compat template's layer: `$parent<suffix>` under `parent_key`.
pub fn mists_texture(suffix: &str, parent_key: &str) -> (r: crate::template_xml::LayerElement)
    ensures
        r matches crate::template_xml::LayerElement::Texture(t) && spec_named_texture(t, suffix@, parent_key@),
{
    let mut t = TextureXml::empty();
    t.name = Some(parent_name(suffix));
    t.parent_key = Some(owned(parent_key));
    crate::template_xml::LayerElement::Texture(t)
}

/// The background layer of the portrait frame: its background, title
/// background and portrait textures and its title text.
pub fn mists_portrait_frame_layers() -> (r: Vec<crate::template_xml::LayerXml>)
    ensures
        spec_portrait_frame_layers(r@),
{
    let mut elements: Vec<crate::template_xml::LayerElement> = Vec::new();
    elements.push(mists_texture("Bg", "Bg"));
    elements.push(mists_texture("TitleBg", "TitleBg"));
    elements.push(mists_texture("Portrait", "Portrait"));
    let mut title = FontStringXml::empty();
    title.name = Some(parent_name("TitleText"));
    title.parent_key = Some(owned("TitleText"));
    elements.push(crate::template_xml::LayerElement::FontString(title));
    let mut layers: Vec<crate::template_xml::LayerXml> = Vec::new();
    layers.push(crate::template_xml::LayerXml { level: Some(owned("BACKGROUND")), elements });
    layers
}

/// The portrait frame template: its layers and a close button.
pub fn mists_portrait_frame_template() -> (r: FrameXml)
    ensures
        spec_portrait_frame(r),
{
    let mut f = FrameXml::empty();
    f.is_virtual = Some(true);
    f.children.push(crate::template_xml::FrameChildElement::Layers(mists_portrait_frame_layers()));
    let mut close = FrameXml::empty();
    close.name = Some(parent_name("CloseButton"));
    close.parent_key = Some(owned("CloseButton"));
    f.children.push(crate::template_xml::FrameChildElement::Button(close));
    f
}

/// The button frame template: a portrait frame with an inset.
pub fn mists_button_frame_template() -> (r: FrameXml)
    ensures
        spec_compat_button_frame(r),
{
    let mut f = FrameXml::empty();
    f.inherits = Some(owned("PortraitFrameTemplate"));
    f.is_virtual = Some(true);
    let mut inset = FrameXml::empty();
    inset.name = Some(parent_name("Inset"));
    inset.parent_key = Some(owned("Inset"));
    inset.inherits = Some(owned("InsetFrameTemplate"));
    f.children.push(crate::template_xml::FrameChildElement::Frame(inset));
    f
}

/// The maximize/minimize button frame: a hidden maximize button and a
/// minimize button, both filling the frame.
pub fn mists_maximize_minimize_template() -> (r: FrameXml)
    ensures
        spec_maximize_minimize_frame(r),
{
    let mut f = FrameXml::empty();
    f.mixin = Some(owned("MaximizeMinimizeButtonFrameMixin"));
    f.is_virtual = Some(true);
    let mut maximize = FrameXml::empty();
    maximize.name = Some(parent_name("MaximizeButton"));
    maximize.parent_key = Some(owned("MaximizeButton"));
    maximize.hidden = Some(true);
    maximize.set_all_points = Some(true);
    let mut minimize = FrameXml::empty();
    minimize.name = Some(parent_name("MinimizeButton"));
    minimize.parent_key = Some(owned("MinimizeButton"));
    minimize.set_all_points = Some(true);
    f.children.push(crate::template_xml::FrameChildElement::Button(maximize));
    f.children.push(crate::template_xml::FrameChildElement::Button(minimize));
    f
}

/// A panel button: its text.
pub fn mists_button_template() -> (r: FrameXml)
    ensures
        spec_panel_button(r),
{
    let mut f = FrameXml::empty();
    f.is_virtual = Some(true);
    let mut text = FontStringXml::empty();
    text.name = Some(parent_name("Text"));
    text.parent_key = Some(owned("Text"));
    f.children.push(crate::template_xml::FrameChildElement::ButtonText(text));
    f
}

/// A panel scroll frame: its scroll bar.
pub fn mists_scroll_frame_template() -> (r: FrameXml)
    ensures
        spec_panel_scroll_frame(r),
{
    let mut f = FrameXml::empty();
    f.is_virtual = Some(true);
    let mut bar = FrameXml::empty();
    bar.name = Some(parent_name("ScrollBar"));
    bar.parent_key = Some(owned("ScrollBar"));
    f.children.push(crate::template_xml::FrameChildElement::Slider(bar));
    f
}

/// A virtual frame with only a mixin (or none).
fn virtual_frame(mixin: Option<&str>) -> (r: FrameXml)
    ensures
        spec_virtual_frame(
            r,
            match mixin {
                Some(m) => Some(m@),
                None => None,
            },
        ),
{
    let mut f = FrameXml::empty();
    f.is_virtual = Some(true);
    match mixin {
        Some(m) => {
            f.mixin = Some(owned(m));
        },
        None => {},
    }
    f
}

/// The names of the shared compat templates, in registration order.
pub open spec fn compat_template_names() -> Seq<Seq<char>> {
    seq![
        "BackdropTemplate"@,
        "InsetFrameTemplate"@,
        "PortraitFrameTemplate"@,
        "ButtonFrameTemplate"@,
        "MaximizeMinimizeButtonFrameTemplate"@,
        "SearchBoxTemplate"@,
        "UIPanelButtonTemplate"@,
        "UIPanelCloseButton"@,
        "UIPanelScrollFrameTemplate"@,
    ]
}

/// Registers a compat template: as `register_template`, keeping every
/// other frame template and alias as it was.
fn register_compat(reg: &mut TemplateRegistry, name: &str, widget_type: &str, frame: FrameXml)
    requires
        old(reg).wf(),
    ensures
        final(reg).wf(),
        lookup(final(reg).entries@, name@) matches Some(e) && e.name@ == name@ && e.widget_type@
            == widget_type@ && e.frame == frame,
        forall|k: Seq<char>| k != name@ ==> #[trigger] lookup(final(reg).entries@, k) == lookup(old(reg).entries@, k),
        forall|k: Seq<char>|
            k != lower_seq(name@) ==> #[trigger] lookup(final(reg).entries_ci@, k) == lookup(old(reg).entries_ci@, k),
        final(reg).textures == old(reg).textures,
        final(reg).anim_groups == old(reg).anim_groups,
        final(reg).font_strings == old(reg).font_strings,
{
    register_template(reg, name, widget_type, frame);
}

/// Registers the shared templates addons need when the Blizzard UI is not
/// loaded: backdrop, inset, portrait and button frames, the
/// maximize/minimize frame, the search box, panel buttons and the panel
/// scroll frame. Every other frame template and alias, and the texture,
/// animation-group and font-string templates, stay as they were.
pub fn register_mists_compat_templates(reg: &mut TemplateRegistry)
    requires
        old(reg).wf(),
    ensures
        final(reg).wf(),
        registered_as(*final(reg), "BackdropTemplate"@, "Frame"@, |f: FrameXml| spec_virtual_frame(f, Some("BackdropTemplateMixin"@))),
        registered_as(*final(reg), "InsetFrameTemplate"@, "Frame"@, |f: FrameXml| spec_virtual_frame(f, None)),
        registered_as(*final(reg), "PortraitFrameTemplate"@, "Frame"@, |f: FrameXml| spec_portrait_frame(f)),
        registered_as(*final(reg), "ButtonFrameTemplate"@, "Frame"@, |f: FrameXml| spec_compat_button_frame(f)),
        registered_as(*final(reg), "MaximizeMinimizeButtonFrameTemplate"@, "Frame"@, |f: FrameXml| spec_maximize_minimize_frame(f)),
        registered_as(*final(reg), "SearchBoxTemplate"@, "EditBox"@, |f: FrameXml| spec_virtual_frame(f, None)),
        registered_as(*final(reg), "UIPanelButtonTemplate"@, "Button"@, |f: FrameXml| spec_panel_button(f)),
        registered_as(*final(reg), "UIPanelCloseButton"@, "Button"@, |f: FrameXml| spec_panel_button(f)),
        registered_as(*final(reg), "UIPanelScrollFrameTemplate"@, "ScrollFrame"@, |f: FrameXml| spec_panel_scroll_frame(f)),
        forall|k: Seq<char>|
            !compat_template_names().contains(k) ==> #[trigger] lookup(final(reg).entries@, k) == lookup(
                old(reg).entries@,
                k,
            ),
        forall|k: Seq<char>|
            !compat_template_names().map_values(|n: Seq<char>| lower_seq(n)).contains(k) ==> #[trigger] lookup(
                final(reg).entries_ci@,
                k,
            ) == lookup(old(reg).entries_ci@, k),
        final(reg).textures == old(reg).textures,
        final(reg).anim_groups == old(reg).anim_groups,
        final(reg).font_strings == old(reg).font_strings,
{
    proof {
        reveal_strlit("BackdropTemplate");
        reveal_strlit("InsetFrameTemplate");
        reveal_strlit("PortraitFrameTemplate");
        reveal_strlit("ButtonFrameTemplate");
        reveal_strlit("MaximizeMinimizeButtonFrameTemplate");
        reveal_strlit("SearchBoxTemplate");
        reveal_strlit("UIPanelButtonTemplate");
        reveal_strlit("UIPanelCloseButton");
        reveal_strlit("UIPanelScrollFrameTemplate");
    }
    let ghost r0 = *reg;
    let ghost names = compat_template_names();
    let ghost lowers = names.map_values(|n: Seq<char>| lower_seq(n));
    register_compat(reg, "BackdropTemplate", "Frame", virtual_frame(Some("BackdropTemplateMixin")));
    let ghost r1 = *reg;
    register_compat(reg, "InsetFrameTemplate", "Frame", virtual_frame(None));
    let ghost r2 = *reg;
    register_compat(reg, "PortraitFrameTemplate", "Frame", mists_portrait_frame_template());
    let ghost r3 = *reg;
    register_compat(reg, "ButtonFrameTemplate", "Frame", mists_button_frame_template());
    let ghost r4 = *reg;
    register_compat(reg, "MaximizeMinimizeButtonFrameTemplate", "Frame", mists_maximize_minimize_template());
    let ghost r5 = *reg;
    register_compat(reg, "SearchBoxTemplate", "EditBox", virtual_frame(None));
    let ghost r6 = *reg;
    register_compat(reg, "UIPanelButtonTemplate", "Button", mists_button_template());
    let ghost r7 = *reg;
    register_compat(reg, "UIPanelCloseButton", "Button", mists_button_template());
    let ghost r8 = *reg;
    register_compat(reg, "UIPanelScrollFrameTemplate", "ScrollFrame", mists_scroll_frame_template());
    assert("BackdropTemplate"@.len() == 16);
    assert("InsetFrameTemplate"@.len() == 18);
    assert("PortraitFrameTemplate"@.len() == 21);
    assert("ButtonFrameTemplate"@.len() == 19);
    assert("MaximizeMinimizeButtonFrameTemplate"@.len() == 35);
    assert("SearchBoxTemplate"@.len() == 17);
    assert("UIPanelButtonTemplate"@.len() == 21);
    assert("UIPanelCloseButton"@.len() == 18);
    assert("UIPanelScrollFrameTemplate"@.len() == 26);
    assert("InsetFrameTemplate"@[0] == 'I' && "UIPanelCloseButton"@[0] == 'U');
    assert("PortraitFrameTemplate"@[0] == 'P' && "UIPanelButtonTemplate"@[0] == 'U');
    assert("InsetFrameTemplate"@ != "UIPanelCloseButton"@);
    assert("PortraitFrameTemplate"@ != "UIPanelButtonTemplate"@);
    proof {
        assert forall|k: Seq<char>| !names.contains(k) implies #[trigger] lookup(reg.entries@, k) == lookup(
            r0.entries@,
            k,
        ) by {
            assert(names[0] == "BackdropTemplate"@ && names[1] == "InsetFrameTemplate"@);
            assert(names[2] == "PortraitFrameTemplate"@ && names[3] == "ButtonFrameTemplate"@);
            assert(names[4] == "MaximizeMinimizeButtonFrameTemplate"@ && names[5] == "SearchBoxTemplate"@);
            assert(names[6] == "UIPanelButtonTemplate"@ && names[7] == "UIPanelCloseButton"@);
            assert(names[8] == "UIPanelScrollFrameTemplate"@);
        }
        assert forall|k: Seq<char>| !lowers.contains(k) implies #[trigger] lookup(reg.entries_ci@, k) == lookup(
            r0.entries_ci@,
            k,
        ) by {
            assert(lowers[0] == lower_seq("BackdropTemplate"@) && lowers[1] == lower_seq("InsetFrameTemplate"@));
            assert(lowers[2] == lower_seq("PortraitFrameTemplate"@) && lowers[3] == lower_seq("ButtonFrameTemplate"@));
            assert(lowers[4] == lower_seq("MaximizeMinimizeButtonFrameTemplate"@) && lowers[5] == lower_seq("SearchBoxTemplate"@));
            assert(lowers[6] == lower_seq("UIPanelButtonTemplate"@) && lowers[7] == lower_seq("UIPanelCloseButton"@));
            assert(lowers[8] == lower_seq("UIPanelScrollFrameTemplate"@));
        }
    }
}

/// A registered frame template is found by its name, and by any other
/// spelling of it in another case that is not itself registered.
pub proof fn lemma_registered_template_is_found(
    after: TemplateRegistry,
    name: Seq<char>,
    entry: TemplateEntry,
    canonical: String,
    other: Seq<char>,
)
    requires
        lookup(after.entries@, name) == Some(entry),
        lookup(after.entries_ci@, lower_seq(name)) == Some(canonical),
        canonical@ == name,
        lower_seq(other) == lower_seq(name),
        !has_key(after.entries@, other),
    ensures
        after.spec_resolve(name) == Some(name),
        after.spec_resolve(other) == Some(name),
        lookup(after.entries@, name) == Some(entry),
{
}

} // verus!
