//! Ordered key/value lists.
//!
//! Tables are kept as vectors of pairs so that they are walked in the order in
//! which they were written. A key is looked up from the front: where a key
//! occurs more than once, its first entry is the one that counts.

use vstd::prelude::*;

verus! {

/// `i` is the first position of `key` in `keys`.
pub open spec fn is_first_index<K>(keys: Seq<K>, key: K, i: int) -> bool {
    &&& 0 <= i < keys.len()
    &&& keys[i] == key
    &&& forall|j: int| 0 <= j < i ==> keys[j] != key
}

/// The first position of `key` in `keys`, if it occurs.
pub open spec fn first_index<K>(keys: Seq<K>, key: K) -> Option<int> {
    if exists|i: int| is_first_index(keys, key, i) {
        Some(choose|i: int| is_first_index(keys, key, i))
    } else {
        None
    }
}

/// The keys of a list of pairs, in order.
pub open spec fn keys_of<K, V>(entries: Seq<(K, V)>) -> Seq<K> {
    Seq::new(entries.len(), |i: int| entries[i].0)
}

/// The value stored under the first entry of `key`, if there is one.
pub open spec fn lookup<K, V>(entries: Seq<(K, V)>, key: K) -> Option<V> {
    match first_index(keys_of(entries), key) {
        Some(i) => Some(entries[i].1),
        None => None,
    }
}

/// Whether `key` has an entry.
pub open spec fn has_key<K, V>(entries: Seq<(K, V)>, key: K) -> bool {
    first_index(keys_of(entries), key) is Some
}

/// The characters of each string of a list.
pub open spec fn names_view(names: Seq<String>) -> Seq<Seq<char>> {
    Seq::new(names.len(), |i: int| names[i]@)
}

/// The keys of a list of pairs keyed by strings, as character sequences.
pub open spec fn string_keys<V>(entries: Seq<(String, V)>) -> Seq<Seq<char>> {
    Seq::new(entries.len(), |i: int| entries[i].0@)
}

/// A list of string pairs as pairs of character sequences.
pub open spec fn pairs_view(entries: Seq<(String, String)>) -> Seq<(Seq<char>, Seq<char>)> {
    Seq::new(entries.len(), |i: int| (entries[i].0@, entries[i].1@))
}

/// An exec index as a spec position.
pub open spec fn position_of(r: Option<usize>) -> Option<int> {
    match r {
        Some(i) => Some(i as int),
        None => None,
    }
}

/// A first position is the only first position.
pub proof fn lemma_first_index_is<K>(keys: Seq<K>, key: K, i: int)
    requires
        is_first_index(keys, key, i),
    ensures
        first_index(keys, key) == Some(i),
{
    let c = choose|c: int| is_first_index(keys, key, c);
    assert(is_first_index(keys, key, c));
    if c < i {
        assert(keys[c] != key);
    } else if i < c {
        assert(keys[i] != key);
    }
}

/// A key that occurs nowhere has no first position.
pub proof fn lemma_first_index_none<K>(keys: Seq<K>, key: K)
    requires
        forall|j: int| 0 <= j < keys.len() ==> keys[j] != key,
    ensures
        first_index(keys, key) is None,
{
}

/// What `first_index` returns is a first position, and it returns one exactly
/// when the key occurs.
pub proof fn lemma_first_index_sound<K>(keys: Seq<K>, key: K)
    ensures
        first_index(keys, key) matches Some(i) ==> is_first_index(keys, key, i),
        first_index(keys, key) is Some <==> keys.contains(key),
{
    if keys.contains(key) {
        let w = choose|w: int| 0 <= w < keys.len() && keys[w] == key;
        lemma_first_exists(keys, key, w);
    }
    if first_index(keys, key) is Some {
        let c = choose|c: int| is_first_index(keys, key, c);
        assert(keys[c] == key);
    }
}

/// Below any occurrence of a key there is a first one.
pub proof fn lemma_first_exists<K>(keys: Seq<K>, key: K, w: int)
    requires
        0 <= w < keys.len(),
        keys[w] == key,
    ensures
        exists|i: int| is_first_index(keys, key, i) && i <= w,
    decreases w,
{
    if forall|j: int| 0 <= j < w ==> keys[j] != key {
        assert(is_first_index(keys, key, w));
    } else {
        let j = choose|j: int| 0 <= j < w && keys[j] == key;
        lemma_first_exists(keys, key, j);
    }
}

/// Finds the first entry of `entries` whose key equals `key`.
pub fn find_key<V>(entries: &Vec<(String, V)>, key: &String) -> (r: Option<usize>)
    ensures
        position_of(r) == first_index(string_keys(entries@), key@),
        r matches Some(i) ==> i < entries.len(),
{
    let mut i: usize = 0;
    while i < entries.len()
        invariant
            i <= entries.len(),
            forall|j: int| 0 <= j < i ==> string_keys(entries@)[j] != key@,
        decreases entries.len() - i,
    {
        if entries[i].0 == *key {
            proof {
                assert(string_keys(entries@)[i as int] == key@);
                lemma_first_index_is(string_keys(entries@), key@, i as int);
            }
            return Some(i);
        }
        i = i + 1;
    }
    proof {
        lemma_first_index_none(string_keys(entries@), key@);
    }
    None
}

/// A copy of a list of strings.
pub fn copy_names(names: &Vec<String>) -> (r: Vec<String>)
    ensures
        names_view(r@) == names_view(names@),
{
    let mut out: Vec<String> = Vec::new();
    let mut i: usize = 0;
    while i < names.len()
        invariant
            i <= names.len(),
            out@.len() == i,
            forall|j: int| 0 <= j < i ==> out@[j]@ == names@[j]@,
        decreases names.len() - i,
    {
        out.push(names[i].clone());
        i = i + 1;
    }
    assert(names_view(out@) =~= names_view(names@));
    out
}

/// Looking a key up after one more key was added at the end: an earlier
/// entry still counts, and the new one counts for its own key where there was none.
pub proof fn lemma_first_index_push<K>(keys: Seq<K>, extra: K, key: K)
    ensures
        first_index(keys.push(extra), key) == match first_index(keys, key) {
            Some(i) => Some(i),
            None => if extra == key {
                Some(keys.len() as int)
            } else {
                None
            },
        },
{
    let longer = keys.push(extra);
    lemma_first_index_sound(keys, key);
    match first_index(keys, key) {
        Some(i) => {
            assert(is_first_index(keys, key, i));
            assert forall|j: int| 0 <= j < i implies longer[j] != key by {
                assert(longer[j] == keys[j]);
            }
            assert(longer[i] == keys[i]);
            lemma_first_index_is(longer, key, i);
        },
        None => {
            assert forall|j: int| 0 <= j < keys.len() implies longer[j] != key by {
                assert(longer[j] == keys[j]);
                if keys[j] == key {
                    assert(keys.contains(key));
                }
            }
            if extra == key {
                assert(longer[keys.len() as int] == key);
                lemma_first_index_is(longer, key, keys.len() as int);
            } else {
                lemma_first_index_none(longer, key);
            }
        },
    }
}

} // verus!
