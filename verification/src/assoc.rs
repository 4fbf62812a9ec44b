//! The mathematical model shared by the keyed tables of this crate: a table
//! held as a sequence of key/value entries denotes a finite map, later
//! entries overwriting earlier ones with the same key.

use vstd::prelude::*;

verus! {

/// The map that an entry sequence denotes.
pub open spec fn assoc_map<K, V>(s: Seq<(K, V)>) -> Map<K, V>
    decreases s.len(),
{
    if s.len() == 0 {
        Map::empty()
    } else {
        assoc_map(s.drop_last()).insert(s.last().0, s.last().1)
    }
}

/// No two entries of the sequence share a key.
pub open spec fn unique_keys<K, V>(s: Seq<(K, V)>) -> bool {
    forall|i: int, j: int| 0 <= i < j < s.len() ==> s[i].0 != s[j].0
}

/// A key that occurs in no entry is not in the denoted map's domain.
pub proof fn lemma_assoc_absent<K, V>(s: Seq<(K, V)>, k: K)
    requires
        forall|i: int| 0 <= i < s.len() ==> s[i].0 != k,
    ensures
        !assoc_map(s).dom().contains(k),
    decreases s.len(),
{
    if s.len() > 0 {
        assert(forall|i: int| 0 <= i < s.drop_last().len() ==> s.drop_last()[i].0 != k);
        lemma_assoc_absent(s.drop_last(), k);
        assert(s.last().0 != k);
    }
}

/// With unique keys, every entry is a pair of the denoted map.
pub proof fn lemma_assoc_index<K, V>(s: Seq<(K, V)>, i: int)
    requires
        unique_keys(s),
        0 <= i < s.len(),
    ensures
        assoc_map(s).contains_pair(s[i].0, s[i].1),
    decreases s.len(),
{
    let n = s.len() - 1;
    if i == n {
        assert(s.last() == s[i]);
    } else {
        assert(forall|p: int, q: int|
            0 <= p < q < s.drop_last().len() ==> s.drop_last()[p].0 != s.drop_last()[q].0);
        assert(s.drop_last()[i] == s[i]);
        lemma_assoc_index(s.drop_last(), i);
        assert(s[i].0 != s[n].0);
    }
}

/// A key occurring in some entry is in the denoted map's domain.
pub proof fn lemma_assoc_dom_witness<K, V>(s: Seq<(K, V)>, j: int)
    requires
        0 <= j < s.len(),
    ensures
        assoc_map(s).dom().contains(s[j].0),
    decreases s.len(),
{
    if j == s.len() - 1 {
        assert(s.last() == s[j]);
    } else {
        assert(s.drop_last()[j] == s[j]);
        lemma_assoc_dom_witness(s.drop_last(), j);
    }
}

/// Appending an entry inserts its pair into the denoted map.
pub proof fn lemma_assoc_push<K, V>(s: Seq<(K, V)>, k: K, v: V)
    ensures
        assoc_map(s.push((k, v))) =~= assoc_map(s).insert(k, v),
{
    assert(s.push((k, v)).drop_last() =~= s);
    assert(s.push((k, v)).last() == (k, v));
}

/// With unique keys, removing the entry at `i` removes exactly its key from
/// the denoted map.
pub proof fn lemma_assoc_remove<K, V>(s: Seq<(K, V)>, i: int)
    requires
        unique_keys(s),
        0 <= i < s.len(),
    ensures
        unique_keys(s.remove(i)),
        assoc_map(s.remove(i)) =~= assoc_map(s).remove(s[i].0),
    decreases s.len(),
{
    let n = s.len() - 1;
    assert(forall|p: int, q: int|
        0 <= p < q < s.remove(i).len() ==> s.remove(i)[p].0 != s.remove(i)[q].0) by {
        assert(forall|p: int| 0 <= p < s.remove(i).len() ==> s.remove(i)[p] == if p < i {
            s[p]
        } else {
            s[p + 1]
        });
    }
    if i == n {
        assert(s.remove(n) =~= s.drop_last());
        assert(forall|j: int| 0 <= j < s.drop_last().len() ==> s.drop_last()[j].0 != s[n].0);
        lemma_assoc_absent(s.drop_last(), s[n].0);
        assert(assoc_map(s) == assoc_map(s.drop_last()).insert(s[n].0, s[n].1));
        assert(assoc_map(s.remove(n)) =~= assoc_map(s).remove(s[n].0));
    } else {
        assert(forall|p: int, q: int|
            0 <= p < q < s.drop_last().len() ==> s.drop_last()[p].0 != s.drop_last()[q].0);
        lemma_assoc_remove(s.drop_last(), i);
        assert(s.remove(i).drop_last() =~= s.drop_last().remove(i));
        assert(s.remove(i).last() == s.last());
        assert(assoc_map(s.remove(i)) == assoc_map(s.remove(i).drop_last()).insert(
            s.last().0,
            s.last().1,
        ));
        assert(s.drop_last()[i] == s[i]);
        assert(s[i].0 != s.last().0);
        assert(assoc_map(s.remove(i)) =~= assoc_map(s).remove(s[i].0));
    }
}

/// With unique keys, the denoted map has exactly one key per entry.
pub proof fn lemma_assoc_dom_len<K, V>(s: Seq<(K, V)>)
    requires
        unique_keys(s),
    ensures
        assoc_map(s).dom().finite(),
        assoc_map(s).dom().len() == s.len(),
    decreases s.len(),
{
    if s.len() == 0 {
        assert(assoc_map(s).dom() =~= Set::<K>::empty());
    } else {
        assert(forall|p: int, q: int|
            0 <= p < q < s.drop_last().len() ==> s.drop_last()[p].0 != s.drop_last()[q].0);
        lemma_assoc_dom_len(s.drop_last());
        assert(forall|j: int| 0 <= j < s.drop_last().len() ==> s.drop_last()[j].0 != s.last().0);
        lemma_assoc_absent(s.drop_last(), s.last().0);
        assert(assoc_map(s).dom() =~= assoc_map(s.drop_last()).dom().insert(s.last().0));
    }
}

} // verus!
