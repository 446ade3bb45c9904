//! Association lists keyed by `u32`, viewed as finite maps.
//!
//! The account stores its transaction log and its open disputes as
//! vectors of key/value pairs with pairwise-distinct keys; `map_of`
//! turns such a sequence into the `Map` the contracts speak of.

use vstd::prelude::*;

verus! {

/// The finite map an association sequence denotes; later entries win,
/// which does not matter under [`keys_unique`].
pub open spec fn map_of<V>(s: Seq<(u32, V)>) -> Map<u32, V>
    decreases s.len(),
{
    if s.len() == 0 {
        Map::empty()
    } else {
        map_of(s.drop_last()).insert(s.last().0, s.last().1)
    }
}

/// No key occurs twice.
pub open spec fn keys_unique<V>(s: Seq<(u32, V)>) -> bool {
    forall|i: int, j: int| 0 <= i < j < s.len() ==> (#[trigger] s[i]).0 != (#[trigger] s[j]).0
}

/// A key is in the map exactly when some entry carries it.
pub proof fn lemma_map_of_contains<V>(s: Seq<(u32, V)>, k: u32)
    ensures
        map_of(s).contains_key(k) <==> exists|i: int| 0 <= i < s.len() && (#[trigger] s[i]).0 == k,
    decreases s.len(),
{
    if s.len() > 0 {
        lemma_map_of_contains(s.drop_last(), k);
        if s.last().0 == k {
            assert(s[s.len() - 1].0 == k);
        } else if map_of(s).contains_key(k) {
            let i = choose|i: int| 0 <= i < s.drop_last().len() && (#[trigger] s.drop_last()[i]).0
                == k;
            assert(s[i].0 == k);
        } else if exists|i: int| 0 <= i < s.len() && (#[trigger] s[i]).0 == k {
            let i = choose|i: int| 0 <= i < s.len() && (#[trigger] s[i]).0 == k;
            assert(s.drop_last()[i].0 == k);
        }
    }
}

/// Under unique keys, each entry is the map's value at its key.
pub proof fn lemma_map_of_index<V>(s: Seq<(u32, V)>, i: int)
    requires
        keys_unique(s),
        0 <= i < s.len(),
    ensures
        map_of(s).contains_key(s[i].0),
        map_of(s)[s[i].0] == s[i].1,
    decreases s.len(),
{
    if i == s.len() - 1 {
    } else {
        assert(keys_unique(s.drop_last()));
        lemma_map_of_index(s.drop_last(), i);
        assert(s.drop_last()[i] == s[i]);
        assert(s[i].0 != s.last().0);
    }
}

/// Appending an entry inserts its key.
pub proof fn lemma_map_of_push<V>(s: Seq<(u32, V)>, k: u32, v: V)
    ensures
        map_of(s.push((k, v))) == map_of(s).insert(k, v),
{
    assert(s.push((k, v)).drop_last() =~= s);
    assert(s.push((k, v)).last() == (k, v));
}

/// Under unique keys, removing an entry removes its key.
pub proof fn lemma_map_of_remove<V>(s: Seq<(u32, V)>, i: int)
    requires
        keys_unique(s),
        0 <= i < s.len(),
    ensures
        map_of(s.remove(i)) =~= map_of(s).remove(s[i].0),
    decreases s.len(),
{
    let k = s[i].0;
    if i == s.len() - 1 {
        assert(s.remove(i) =~= s.drop_last());
        lemma_map_of_contains(s.drop_last(), k);
        assert(forall|j: int| 0 <= j < s.drop_last().len() ==> (#[trigger] s.drop_last()[j]).0
            != k);
        assert(map_of(s.drop_last()) =~= map_of(s.drop_last()).remove(k));
    } else {
        assert(keys_unique(s.drop_last()));
        lemma_map_of_remove(s.drop_last(), i);
        assert(s.remove(i).drop_last() =~= s.drop_last().remove(i));
        assert(s.remove(i).last() == s.last());
        assert(s.last().0 != k);
    }
}

/// Looks a key up, returning a copy of its value.
pub fn get<V: Copy>(entries: &Vec<(u32, V)>, key: u32) -> (r: Option<V>)
    requires
        keys_unique(entries@),
    ensures
        match r {
            Some(v) => map_of(entries@).contains_key(key) && map_of(entries@)[key] == v,
            None => !map_of(entries@).contains_key(key),
        },
{
    let n = entries.len();
    let mut i: usize = 0;
    while i < n
        invariant
            n == entries@.len(),
            keys_unique(entries@),
            i <= n,
            forall|j: int| 0 <= j < i ==> (#[trigger] entries@[j]).0 != key,
        decreases n - i,
    {
        if entries[i].0 == key {
            proof {
                lemma_map_of_index(entries@, i as int);
            }
            return Some(entries[i].1);
        }
        i = i + 1;
    }
    proof {
        lemma_map_of_contains(entries@, key);
    }
    None
}

/// Removes the entry with the given key, if any, and returns its value.
pub fn remove_key<V: Copy>(entries: &mut Vec<(u32, V)>, key: u32) -> (r: Option<V>)
    requires
        keys_unique(old(entries)@),
    ensures
        keys_unique(final(entries)@),
        match r {
            Some(v) => {
                &&& map_of(old(entries)@).contains_key(key)
                &&& map_of(old(entries)@)[key] == v
                &&& exists|i: int|
                    0 <= i < old(entries)@.len() && old(entries)@[i] == (key, v)
                        && final(entries)@ =~= old(entries)@.remove(i)
                &&& map_of(final(entries)@) =~= map_of(old(entries)@).remove(key)
            },
            None => {
                &&& !map_of(old(entries)@).contains_key(key)
                &&& final(entries)@ == old(entries)@
            },
        },
{
    let n = entries.len();
    let mut i: usize = 0;
    while i < n
        invariant
            n == entries@.len(),
            entries@ == old(entries)@,
            keys_unique(entries@),
            i <= n,
            forall|j: int| 0 <= j < i ==> (#[trigger] entries@[j]).0 != key,
        decreases n - i,
    {
        if entries[i].0 == key {
            let v = entries[i].1;
            proof {
                lemma_map_of_index(entries@, i as int);
                lemma_map_of_remove(entries@, i as int);
            }
            let ghost s = entries@;
            entries.remove(i);
            proof {
                s.remove_ensures(i as int);
                assert forall|p: int, q: int| 0 <= p < q < entries@.len() implies (
                #[trigger] entries@[p]).0 != (#[trigger] entries@[q]).0 by {
                    let p0 = if p < i { p } else { p + 1 };
                    let q0 = if q < i { q } else { q + 1 };
                    assert(entries@[p] == s[p0]);
                    assert(entries@[q] == s[q0]);
                }
            }
            return Some(v);
        }
        i = i + 1;
    }
    proof {
        lemma_map_of_contains(entries@, key);
    }
    None
}

} // verus!
