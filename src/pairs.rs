//! Maps built from sequences of key-value pairs, where a later pair
//! overrides an earlier one with the same key.

use vstd::prelude::*;

verus! {

/// The map obtained by inserting the pairs of `s` into `base`, in order.
pub open spec fn pairs_onto<K, V>(base: Map<K, V>, s: Seq<(K, V)>) -> Map<K, V>
    decreases s.len(),
{
    if s.len() == 0 {
        base
    } else {
        pairs_onto(base, s.drop_last()).insert(s.last().0, s.last().1)
    }
}

/// The map that a sequence of pairs describes.
pub open spec fn pairs_map<K, V>(s: Seq<(K, V)>) -> Map<K, V> {
    pairs_onto(Map::empty(), s)
}

/// No two pairs of `s` share a key.
pub open spec fn keys_unique<K, V>(s: Seq<(K, V)>) -> bool {
    forall|i: int, j: int| 0 <= i < j < s.len() ==> #[trigger] s[i].0 != #[trigger] s[j].0
}

/// Whether some pair of `s` has the key `k`.
pub open spec fn has_key<K, V>(s: Seq<(K, V)>, k: K) -> bool {
    exists|i: int| 0 <= i < s.len() && #[trigger] s[i].0 == k
}

/// What inserting pairs with distinct keys does to a map.
pub proof fn lemma_pairs_onto<K, V>(base: Map<K, V>, s: Seq<(K, V)>)
    requires
        keys_unique(s),
    ensures
        forall|k: K| #[trigger]
            pairs_onto(base, s).contains_key(k) <==> (base.contains_key(k) || has_key(s, k)),
        forall|i: int| 0 <= i < s.len() ==> #[trigger] pairs_onto(base, s)[s[i].0] == s[i].1,
        forall|k: K| !has_key(s, k) ==> #[trigger] pairs_onto(base, s)[k] == base[k],
    decreases s.len(),
{
    if s.len() > 0 {
        let p = s.drop_last();
        assert(keys_unique(p));
        lemma_pairs_onto(base, p);
        assert(pairs_onto(base, s) == pairs_onto(base, p).insert(s.last().0, s.last().1));
        assert forall|i: int| 0 <= i < p.len() implies #[trigger] p[i] == s[i] by {}
        assert forall|k: K| #[trigger]
            pairs_onto(base, s).contains_key(k) <==> (base.contains_key(k) || has_key(s, k)) by {
            if has_key(p, k) {
                let i = choose|i: int| 0 <= i < p.len() && #[trigger] p[i].0 == k;
                assert(s[i].0 == k);
            }
            if has_key(s, k) && k != s.last().0 {
                let i = choose|i: int| 0 <= i < s.len() && #[trigger] s[i].0 == k;
                assert(p[i].0 == k);
            }
        }
        assert forall|i: int| 0 <= i < s.len() implies #[trigger] pairs_onto(base, s)[s[i].0]
            == s[i].1 by {
            if i < s.len() - 1 {
                assert(p[i] == s[i]);
                assert(s[i].0 != s[s.len() - 1].0);
                assert(pairs_onto(base, p)[p[i].0] == p[i].1);
            }
        }
        assert forall|k: K| !has_key(s, k) implies #[trigger] pairs_onto(base, s)[k] == base[k] by {
            assert(s[s.len() - 1].0 != k);
            if has_key(p, k) {
                let i = choose|i: int| 0 <= i < p.len() && #[trigger] p[i].0 == k;
                assert(s[i].0 == k);
            }
        }
    }
}

/// Replacing the value of one pair of a sequence with distinct keys is an
/// insertion into the map it describes.
pub proof fn lemma_pairs_update<K, V>(base: Map<K, V>, s: Seq<(K, V)>, i: int, v: V)
    requires
        keys_unique(s),
        0 <= i < s.len(),
    ensures
        keys_unique(s.update(i, (s[i].0, v))),
        pairs_onto(base, s.update(i, (s[i].0, v))) == pairs_onto(base, s).insert(s[i].0, v),
{
    let t = s.update(i, (s[i].0, v));
    assert forall|a: int, b: int| 0 <= a < b < t.len() implies #[trigger] t[a].0
        != #[trigger] t[b].0 by {
        assert(t[a].0 == s[a].0 && t[b].0 == s[b].0);
    }
    lemma_pairs_onto(base, s);
    lemma_pairs_onto(base, t);
    assert forall|k: K| has_key(t, k) <==> has_key(s, k) by {
        if has_key(t, k) {
            let j = choose|j: int| 0 <= j < t.len() && #[trigger] t[j].0 == k;
            assert(s[j].0 == k);
        }
        if has_key(s, k) {
            let j = choose|j: int| 0 <= j < s.len() && #[trigger] s[j].0 == k;
            assert(t[j].0 == k);
        }
    }
    let m = pairs_onto(base, s).insert(s[i].0, v);
    assert forall|k: K| #[trigger] pairs_onto(base, t).contains_key(k) implies pairs_onto(base, t)[k]
        == m[k] by {
        if has_key(t, k) {
            let j = choose|j: int| 0 <= j < t.len() && #[trigger] t[j].0 == k;
            assert(pairs_onto(base, t)[t[j].0] == t[j].1);
            assert(pairs_onto(base, s)[s[j].0] == s[j].1);
        }
    }
    assert(pairs_onto(base, t) =~= m);
}

/// Inserting pairs with distinct keys into a map is taking the union of the
/// map and the pairs' own map, the pairs winning where keys collide.
pub proof fn lemma_pairs_union<K, V>(base: Map<K, V>, s: Seq<(K, V)>)
    requires
        keys_unique(s),
    ensures
        pairs_onto(base, s) == base.union_prefer_right(pairs_map(s)),
{
    lemma_pairs_onto(base, s);
    lemma_pairs_onto(Map::<K, V>::empty(), s);
    let m = base.union_prefer_right(pairs_map(s));
    assert forall|k: K| #[trigger] pairs_onto(base, s).contains_key(k) implies pairs_onto(base, s)[k]
        == m[k] by {
        if has_key(s, k) {
            let j = choose|j: int| 0 <= j < s.len() && #[trigger] s[j].0 == k;
            assert(pairs_onto(base, s)[s[j].0] == s[j].1);
            assert(pairs_map(s)[s[j].0] == s[j].1);
        }
    }
    assert(pairs_onto(base, s) =~= m);
}

} // verus!
