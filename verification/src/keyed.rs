//! String-keyed tables as vectors of entries with distinct keys: the caches
//! and registries of the library keep their contents this way.

use vstd::prelude::*;
use crate::text::str_eq;

verus! {

/// Index of the entry with key `key`, searching from the back; `-1` when
/// there is none.
pub open spec fn key_index<V>(e: Seq<(String, V)>, key: Seq<char>) -> int
    decreases e.len(),
{
    if e.len() == 0 {
        -1
    } else if e.last().0@ == key {
        e.len() - 1
    } else {
        key_index(e.drop_last(), key)
    }
}

/// No two entries share a key.
pub open spec fn keys_distinct<V>(e: Seq<(String, V)>) -> bool {
    forall|i: int, j: int| 0 <= i < j < e.len() ==> e[i].0@ != e[j].0@
}

/// The value stored under `key`.
pub open spec fn lookup<V>(e: Seq<(String, V)>, key: Seq<char>) -> Option<V> {
    let i = key_index(e, key);
    if 0 <= i < e.len() {
        Some(e[i].1)
    } else {
        None
    }
}

/// Whether `key` has an entry.
pub open spec fn has_key<V>(e: Seq<(String, V)>, key: Seq<char>) -> bool {
    lookup(e, key) is Some
}

/// The entries after storing `v` under `k`: an entry with that key has its
/// value replaced, else a new entry is appended.
pub open spec fn with_entry<V>(e: Seq<(String, V)>, k: String, v: V) -> Seq<(String, V)> {
    let i = key_index(e, k@);
    if 0 <= i < e.len() {
        e.update(i, (e[i].0, v))
    } else {
        e.push((k, v))
    }
}

/// The keys of the entries, in order.
pub open spec fn keys_of<V>(e: Seq<(String, V)>) -> Seq<Seq<char>> {
    Seq::new(e.len(), |i: int| e[i].0@)
}

pub proof fn lemma_key_index<V>(e: Seq<(String, V)>, key: Seq<char>)
    ensures
        -1 <= key_index(e, key) < e.len(),
        key_index(e, key) >= 0 ==> e[key_index(e, key)].0@ == key,
        key_index(e, key) == -1 ==> forall|j: int| 0 <= j < e.len() ==> #[trigger] e[j].0@ != key,
        forall|j: int| key_index(e, key) < j < e.len() ==> #[trigger] e[j].0@ != key,
    decreases e.len(),
{
    if e.len() > 0 && e.last().0@ != key {
        lemma_key_index(e.drop_last(), key);
        assert forall|j: int| key_index(e, key) < j < e.len() implies #[trigger] e[j].0@ != key by {
            if j < e.len() - 1 {
                assert(e.drop_last()[j] == e[j]);
            }
        }
    }
}

/// In a table with distinct keys, the entry with key `key` sits at any index
/// whose key is `key`.
pub proof fn lemma_key_index_unique<V>(e: Seq<(String, V)>, key: Seq<char>, j: int)
    requires
        keys_distinct(e),
        0 <= j < e.len(),
        e[j].0@ == key,
    ensures
        key_index(e, key) == j,
{
    lemma_key_index(e, key);
}

pub proof fn lemma_with_entry<V>(e: Seq<(String, V)>, k: String, v: V)
    requires
        keys_distinct(e),
    ensures
        keys_distinct(with_entry(e, k, v)),
        lookup(with_entry(e, k, v), k@) == Some(v),
        forall|key: Seq<char>| key != k@ ==> #[trigger] lookup(with_entry(e, k, v), key) == lookup(
            e,
            key,
        ),
        keys_of(with_entry(e, k, v)) == (if has_key(e, k@) {
            keys_of(e)
        } else {
            keys_of(e).push(k@)
        }),
{
    lemma_key_index(e, k@);
    let n = with_entry(e, k, v);
    let i = key_index(e, k@);
    assert(keys_distinct(n));
    lemma_key_index(n, k@);
    if i >= 0 {
        lemma_key_index_unique(n, k@, i);
    } else {
        lemma_key_index_unique(n, k@, e.len() as int);
    }
    assert forall|key: Seq<char>| key != k@ implies #[trigger] lookup(n, key) == lookup(e, key) by {
        lemma_key_index(e, key);
        lemma_key_index(n, key);
        let a = key_index(e, key);
        if a >= 0 {
            lemma_key_index_unique(n, key, a);
        } else {
            let b = key_index(n, key);
            if b >= 0 {
                assert(b < e.len());
                assert(e[b].0@ == key);
            }
        }
    }
    if i >= 0 {
        assert(keys_of(n) == keys_of(e));
    } else {
        assert(keys_of(n) == keys_of(e).push(k@));
    }
}

/// The index of the entry with key `key`, if any.
pub fn find_key<V>(e: &Vec<(String, V)>, key: &str) -> (r: Option<usize>)
    ensures
        match r {
            Some(i) => i as int == key_index(e@, key@) && i < e@.len(),
            None => key_index(e@, key@) == -1,
        },
{
    proof {
        lemma_key_index(e@, key@);
    }
    let mut i = e.len();
    assert(e@.subrange(0, i as int) == e@);
    while i > 0
        invariant
            i <= e@.len(),
            key_index(e@, key@) == key_index(e@.subrange(0, i as int), key@),
        decreases i,
    {
        let ghost sub = e@.subrange(0, i as int);
        if str_eq(e[i - 1].0.as_str(), key) {
            assert(sub.last() == e@[i - 1]);
            return Some(i - 1);
        }
        assert(sub.drop_last() == e@.subrange(0, i - 1));
        i = i - 1;
    }
    None
}

/// Stores `v` under `k`, replacing the value of an existing entry.
pub fn insert_entry<V>(e: &mut Vec<(String, V)>, k: String, v: V)
    ensures
        final(e)@ == with_entry(old(e)@, k, v),
{
    proof {
        lemma_key_index(e@, k@);
    }
    match find_key(e, k.as_str()) {
        Some(i) => {
            let ghost old_key = e@[i as int].0;
            let (stored_key, _) = e.remove(i);
            e.insert(i, (stored_key, v));
            assert(e@ == with_entry(old(e)@, k, v));
        },
        None => {
            e.push((k, v));
        },
    }
}

/// `new` is `old` after storing `v` under `key`: keys stay distinct, `key`
/// maps to `v`, every other key keeps its value, and a new key is appended.
pub open spec fn stored_under<V>(new: Seq<(String, V)>, old: Seq<(String, V)>, key: Seq<char>, v: V) -> bool {
    &&& keys_distinct(new)
    &&& lookup(new, key) == Some(v)
    &&& forall|k: Seq<char>| k != key ==> #[trigger] lookup(new, k) == lookup(old, k)
    &&& keys_of(new) == (if has_key(old, key) {
        keys_of(old)
    } else {
        keys_of(old).push(key)
    })
}

/// Stores `v` under `k` in a table with distinct keys.
pub fn store<V>(e: &mut Vec<(String, V)>, k: String, v: V)
    requires
        keys_distinct(old(e)@),
    ensures
        stored_under(final(e)@, old(e)@, k@, v),
{
    proof {
        lemma_with_entry(e@, k, v);
    }
    let ghost key = k@;
    insert_entry(e, k, v);
}

/// The value stored under `key`, by reference.
pub fn get_ref<'a, V>(e: &'a Vec<(String, V)>, key: &str) -> (r: Option<&'a V>)
    ensures
        match lookup(e@, key@) {
            Some(v) => r matches Some(x) && *x == v,
            None => r is None,
        },
{
    proof {
        lemma_key_index(e@, key@);
    }
    match find_key(e, key) {
        Some(i) => Some(&e[i].1),
        None => None,
    }
}

} // verus!
