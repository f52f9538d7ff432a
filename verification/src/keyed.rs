//! A list of key/value pairs read as a finite map, and what pushing to the
//! list or replacing one of its pairs does to that map.

use vstd::prelude::*;

verus! {

/// No key occurs at two positions of the list.
pub open spec fn distinct_keys<K, V>(s: Seq<(K, V)>) -> bool {
    forall|i: int, j: int| 0 <= i < j < s.len() ==> (#[trigger] s[i]).0 != (#[trigger] s[j]).0
}

/// Some pair of the list has the key `k`.
pub open spec fn has_key<K, V>(s: Seq<(K, V)>, k: K) -> bool {
    exists|i: int| 0 <= i < s.len() && (#[trigger] s[i]).0 == k
}

/// A position of the list that holds the key `k`.
pub open spec fn position_of<K, V>(s: Seq<(K, V)>, k: K) -> int {
    choose|i: int| 0 <= i < s.len() && (#[trigger] s[i]).0 == k
}

/// The map that sends each key of the list to the value listed with it.
pub open spec fn pairs_map<K, V>(s: Seq<(K, V)>) -> Map<K, V> {
    Map::new(|k: K| has_key(s, k), |k: K| s[position_of(s, k)].1)
}

/// The keys of the list, in its order.
pub open spec fn keys_of<K, V>(s: Seq<(K, V)>) -> Seq<K> {
    Seq::new(s.len(), |i: int| s[i].0)
}

/// `keys` names every member of `dom` once and nothing else.
pub open spec fn lists<K>(keys: Seq<K>, dom: Set<K>) -> bool {
    &&& forall|i: int, j: int| 0 <= i < j < keys.len() ==> keys[i] != keys[j]
    &&& forall|i: int| 0 <= i < keys.len() ==> dom.contains(#[trigger] keys[i])
    &&& forall|k: K| #[trigger]
        dom.contains(k) ==> exists|i: int| 0 <= i < keys.len() && keys[i] == k
}

/// The keys of a list without repeated keys name the domain of its map.
pub proof fn lemma_keys_list<K, V>(s: Seq<(K, V)>)
    requires
        distinct_keys(s),
    ensures
        lists(keys_of(s), pairs_map(s).dom()),
{
    let keys = keys_of(s);
    assert forall|i: int| 0 <= i < keys.len() implies pairs_map(s).dom().contains(
        #[trigger] keys[i],
    ) by {
        lemma_pair_at(s, i);
    }
    assert forall|k: K| #[trigger] pairs_map(s).dom().contains(k) implies exists|i: int|
        0 <= i < keys.len() && keys[i] == k by {
        let i = position_of(s, k);
        assert(keys[i] == k);
    }
}

/// The pair at position `i` is what the map holds under its key.
pub proof fn lemma_pair_at<K, V>(s: Seq<(K, V)>, i: int)
    requires
        distinct_keys(s),
        0 <= i < s.len(),
    ensures
        pairs_map(s).dom().contains(s[i].0),
        pairs_map(s)[s[i].0] == s[i].1,
{
    let k = s[i].0;
    assert(has_key(s, k));
    let j = position_of(s, k);
    assert(0 <= j < s.len() && s[j].0 == k);
    if j != i {
        if j < i {
            assert(s[j].0 != s[i].0);
        } else {
            assert(s[i].0 != s[j].0);
        }
    }
}

/// A key that no position holds is not in the map.
pub proof fn lemma_absent<K, V>(s: Seq<(K, V)>, k: K)
    requires
        forall|i: int| 0 <= i < s.len() ==> (#[trigger] s[i]).0 != k,
    ensures
        !pairs_map(s).dom().contains(k),
{
}

/// The empty list is the empty map.
pub proof fn lemma_pairs_empty<K, V>(s: Seq<(K, V)>)
    requires
        s.len() == 0,
    ensures
        pairs_map(s) == Map::<K, V>::empty(),
{
    assert(pairs_map(s) =~= Map::<K, V>::empty());
}

/// Pushing a pair under a new key inserts it into the map.
pub proof fn lemma_pairs_push<K, V>(s: Seq<(K, V)>, k: K, v: V)
    requires
        distinct_keys(s),
        !pairs_map(s).dom().contains(k),
    ensures
        distinct_keys(s.push((k, v))),
        pairs_map(s.push((k, v))) == pairs_map(s).insert(k, v),
{
    let t = s.push((k, v));
    assert forall|i: int, j: int| 0 <= i < j < t.len() implies (#[trigger] t[i]).0 != (
    #[trigger] t[j]).0 by {
        if j == s.len() {
            assert(t[i] == s[i]);
            if s[i].0 == k {
                assert(has_key(s, k));
            }
        } else {
            assert(t[i] == s[i] && t[j] == s[j]);
        }
    }
    assert forall|q: K| pairs_map(t).dom().contains(q) <==> pairs_map(s).insert(
        k,
        v,
    ).dom().contains(q) by {
        if has_key(t, q) {
            let i = position_of(t, q);
            if i < s.len() {
                assert(s[i] == t[i]);
                assert(has_key(s, q));
            }
        }
        if has_key(s, q) {
            let i = position_of(s, q);
            assert(t[i] == s[i]);
            assert(has_key(t, q));
        }
        if q == k {
            assert(t[s.len() as int].0 == k);
            assert(has_key(t, q));
        }
    }
    assert forall|q: K| pairs_map(t).dom().contains(q) implies pairs_map(t)[q] == pairs_map(
        s,
    ).insert(k, v)[q] by {
        let i = position_of(t, q);
        lemma_pair_at(t, i);
        if i < s.len() {
            assert(t[i] == s[i]);
            lemma_pair_at(s, i);
        }
    }
    assert(pairs_map(t) =~= pairs_map(s).insert(k, v));
}

/// Replacing the value at one position replaces it in the map; the keys stay.
pub proof fn lemma_pairs_update<K, V>(s: Seq<(K, V)>, i: int, v: V)
    requires
        distinct_keys(s),
        0 <= i < s.len(),
    ensures
        distinct_keys(s.update(i, (s[i].0, v))),
        pairs_map(s.update(i, (s[i].0, v))) == pairs_map(s).insert(s[i].0, v),
{
    let k = s[i].0;
    let t = s.update(i, (k, v));
    assert forall|a: int| 0 <= a < t.len() implies (#[trigger] t[a]).0 == s[a].0 by {}
    assert forall|a: int, b: int| 0 <= a < b < t.len() implies (#[trigger] t[a]).0 != (
    #[trigger] t[b]).0 by {
        assert(s[a].0 != s[b].0);
    }
    lemma_pair_at(s, i);
    assert forall|q: K| pairs_map(t).dom().contains(q) <==> pairs_map(s).insert(
        k,
        v,
    ).dom().contains(q) by {
        if has_key(t, q) {
            let a = position_of(t, q);
            assert(s[a].0 == q);
            assert(has_key(s, q));
        }
        if has_key(s, q) {
            let a = position_of(s, q);
            assert(t[a].0 == q);
            assert(has_key(t, q));
        }
    }
    assert forall|q: K| pairs_map(t).dom().contains(q) implies pairs_map(t)[q] == pairs_map(
        s,
    ).insert(k, v)[q] by {
        let a = position_of(t, q);
        lemma_pair_at(t, a);
        lemma_pair_at(s, a);
    }
    assert(pairs_map(t) =~= pairs_map(s).insert(k, v));
}

/// Removing one position removes its key from the map; the other pairs stay.
pub proof fn lemma_pairs_remove<K, V>(s: Seq<(K, V)>, i: int)
    requires
        distinct_keys(s),
        0 <= i < s.len(),
    ensures
        distinct_keys(s.remove(i)),
        pairs_map(s.remove(i)) == pairs_map(s).remove(s[i].0),
{
    let k = s[i].0;
    let t = s.remove(i);
    assert forall|a: int| 0 <= a < t.len() implies #[trigger] t[a] == s[if a < i {
        a
    } else {
        a + 1
    }] by {}
    assert forall|a: int, b: int| 0 <= a < b < t.len() implies (#[trigger] t[a]).0 != (
    #[trigger] t[b]).0 by {
        let a2 = if a < i { a } else { a + 1 };
        let b2 = if b < i { b } else { b + 1 };
        assert(s[a2].0 != s[b2].0);
    }
    assert forall|q: K| pairs_map(t).dom().contains(q) <==> pairs_map(s).remove(k).dom().contains(
        q,
    ) by {
        if has_key(t, q) {
            let a = position_of(t, q);
            let a2 = if a < i { a } else { a + 1 };
            assert(s[a2].0 == q);
            assert(has_key(s, q));
            if a2 < i {
                assert(s[a2].0 != s[i].0);
            } else {
                assert(s[i].0 != s[a2].0);
            }
        }
        if has_key(s, q) && q != k {
            let a = position_of(s, q);
            let a1 = if a < i { a } else { a - 1 };
            assert(t[a1] == s[a]);
            assert(has_key(t, q));
        }
    }
    assert forall|q: K| pairs_map(t).dom().contains(q) implies pairs_map(t)[q] == pairs_map(
        s,
    ).remove(k)[q] by {
        let a = position_of(t, q);
        let a2 = if a < i { a } else { a + 1 };
        lemma_pair_at(t, a);
        lemma_pair_at(s, a2);
    }
    assert(pairs_map(t) =~= pairs_map(s).remove(k));
}

} // verus!
