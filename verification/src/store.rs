//! The keyed-store model shared by the ledger and the catalog: a vector of
//! key/value pairs with pairwise-distinct keys, abstracted as a `Map` from
//! the key's character sequence to the stored value.

use vstd::prelude::*;

verus! {

/// The map that a sequence of key/value pairs denotes; a later pair with
/// the same key overrides an earlier one.
pub open spec fn map_of<V>(s: Seq<(String, V)>) -> Map<Seq<char>, V>
    decreases s.len(),
{
    if s.len() == 0 {
        Map::empty()
    } else {
        map_of(s.drop_last()).insert(s.last().0@, s.last().1)
    }
}

/// No two pairs of the sequence share a key.
pub open spec fn keys_unique<V>(s: Seq<(String, V)>) -> bool {
    forall|i: int, j: int| 0 <= i < j < s.len() ==> s[i].0@ != s[j].0@
}

/// Each pair of a duplicate-free sequence is found in its map, with its value.
pub proof fn lemma_map_of_index<V>(s: Seq<(String, V)>, i: int)
    requires
        keys_unique(s),
        0 <= i < s.len(),
    ensures
        map_of(s).contains_key(s[i].0@),
        map_of(s)[s[i].0@] == s[i].1,
    decreases s.len(),
{
    if i < s.len() - 1 {
        assert(keys_unique(s.drop_last()));
        lemma_map_of_index(s.drop_last(), i);
        assert(s.drop_last()[i] == s[i]);
        assert(s[i].0@ != s.last().0@);
    }
}

/// Every key of the map is the key of some pair of the sequence.
pub proof fn lemma_map_of_domain<V>(s: Seq<(String, V)>, k: Seq<char>)
    requires
        map_of(s).contains_key(k),
    ensures
        exists|i: int| 0 <= i < s.len() && s[i].0@ == k,
    decreases s.len(),
{
    if s.len() > 0 && s.last().0@ != k {
        lemma_map_of_domain(s.drop_last(), k);
        let i = choose|i: int| 0 <= i < s.drop_last().len() && s.drop_last()[i].0@ == k;
        assert(s[i].0@ == k);
    } else {
        assert(s.len() > 0);
        assert(s[s.len() - 1].0@ == k);
    }
}

/// Replacing the value of the pair at `i` replaces that key's value in the map.
pub proof fn lemma_map_of_update<V>(s: Seq<(String, V)>, i: int, kv: (String, V))
    requires
        keys_unique(s),
        0 <= i < s.len(),
        kv.0@ == s[i].0@,
    ensures
        keys_unique(s.update(i, kv)),
        map_of(s.update(i, kv)) == map_of(s).insert(kv.0@, kv.1),
    decreases s.len(),
{
    let s2 = s.update(i, kv);
    assert(keys_unique(s2));
    if i == s.len() - 1 {
        assert(s2.drop_last() =~= s.drop_last());
        assert(map_of(s2) == map_of(s.drop_last()).insert(kv.0@, kv.1));
        assert(map_of(s).insert(kv.0@, kv.1) =~= map_of(s.drop_last()).insert(kv.0@, kv.1));
    } else {
        assert(s2.drop_last() =~= s.drop_last().update(i, kv));
        assert(keys_unique(s.drop_last()));
        assert(s.drop_last()[i] == s[i]);
        lemma_map_of_update(s.drop_last(), i, kv);
        assert(s2.last() == s.last());
        assert(kv.0@ != s.last().0@);
        assert(map_of(s2) == map_of(s.drop_last()).insert(kv.0@, kv.1).insert(s.last().0@, s.last().1));
        assert(map_of(s.drop_last()).insert(kv.0@, kv.1).insert(s.last().0@, s.last().1)
            =~= map_of(s.drop_last()).insert(s.last().0@, s.last().1).insert(kv.0@, kv.1));
    }
}

/// Appending a pair with a fresh key inserts that key into the map.
pub proof fn lemma_map_of_push<V>(s: Seq<(String, V)>, kv: (String, V))
    requires
        keys_unique(s),
        forall|j: int| 0 <= j < s.len() ==> s[j].0@ != kv.0@,
    ensures
        keys_unique(s.push(kv)),
        map_of(s.push(kv)) == map_of(s).insert(kv.0@, kv.1),
        !map_of(s).contains_key(kv.0@),
{
    let s2 = s.push(kv);
    assert(forall|j: int| 0 <= j < s.len() ==> s2[j] == s[j]);
    assert(keys_unique(s2));
    assert(s2.drop_last() =~= s);
    assert(s2.last() == kv);
    if map_of(s).contains_key(kv.0@) {
        lemma_map_of_domain(s, kv.0@);
    }
}

/// A key matched by no pair of the sequence is absent from the map.
pub proof fn lemma_map_of_absent<V>(s: Seq<(String, V)>, k: Seq<char>)
    requires
        forall|j: int| 0 <= j < s.len() ==> s[j].0@ != k,
    ensures
        !map_of(s).contains_key(k),
{
    if map_of(s).contains_key(k) {
        lemma_map_of_domain(s, k);
    }
}

} // verus!
