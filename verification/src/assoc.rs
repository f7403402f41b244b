//! A mathematical model for association lists: a sequence of entries, each
//! carrying a key and a value, denotes the map that binds each key to the
//! value of its last entry. The ledger of islands and the list of minted
//! coins are both stored as vectors and specified through this model.

use vstd::prelude::*;

verus! {

/// The map denoted by the entries of `s`, with keys drawn by `key` and
/// values by `val`; a later entry shadows an earlier one with the same key.
pub open spec fn assoc_map<E, K, V>(s: Seq<E>, key: spec_fn(E) -> K, val: spec_fn(E) -> V) -> Map<
    K,
    V,
>
    decreases s.len(),
{
    if s.len() == 0 {
        Map::empty()
    } else {
        assoc_map(s.drop_last(), key, val).insert(key(s.last()), val(s.last()))
    }
}

/// No two entries of `s` carry the same key.
pub open spec fn distinct_keys<E, K>(s: Seq<E>, key: spec_fn(E) -> K) -> bool {
    forall|i: int, j: int| 0 <= i < j < s.len() ==> #[trigger] key(s[i]) != #[trigger] key(s[j])
}

/// A key is bound exactly when some entry carries it.
pub proof fn lemma_assoc_map_contains<E, K, V>(
    s: Seq<E>,
    key: spec_fn(E) -> K,
    val: spec_fn(E) -> V,
    k: K,
)
    ensures
        assoc_map(s, key, val).contains_key(k) <==> exists|i: int|
            0 <= i < s.len() && #[trigger] key(s[i]) == k,
    decreases s.len(),
{
    if s.len() > 0 {
        lemma_assoc_map_contains(s.drop_last(), key, val, k);
        if key(s.last()) == k {
            assert(key(s[s.len() - 1]) == k);
        } else {
            if exists|i: int| 0 <= i < s.len() && #[trigger] key(s[i]) == k {
                let i = choose|i: int| 0 <= i < s.len() && #[trigger] key(s[i]) == k;
                assert(key(s.drop_last()[i]) == k);
            }
            if exists|i: int| 0 <= i < s.drop_last().len() && #[trigger] key(s.drop_last()[i])
                == k {
                let i = choose|i: int|
                    0 <= i < s.drop_last().len() && #[trigger] key(s.drop_last()[i]) == k;
                assert(key(s[i]) == k);
            }
        }
    }
}

/// With distinct keys, the entry at `i` is what the map binds its key to.
pub proof fn lemma_assoc_map_index<E, K, V>(
    s: Seq<E>,
    key: spec_fn(E) -> K,
    val: spec_fn(E) -> V,
    i: int,
)
    requires
        distinct_keys(s, key),
        0 <= i < s.len(),
    ensures
        assoc_map(s, key, val).contains_key(key(s[i])),
        assoc_map(s, key, val)[key(s[i])] == val(s[i]),
    decreases s.len(),
{
    if i < s.len() - 1 {
        assert(distinct_keys(s.drop_last(), key)) by {
            assert(forall|p: int, q: int|
                0 <= p < q < s.drop_last().len() ==> s.drop_last()[p] == s[p] && s.drop_last()[q]
                    == s[q]);
        }
        lemma_assoc_map_index(s.drop_last(), key, val, i);
        assert(s.drop_last()[i] == s[i]);
        assert(key(s[s.len() - 1]) != key(s[i]));
    }
}

/// Appending an entry inserts its binding.
pub proof fn lemma_assoc_map_push<E, K, V>(s: Seq<E>, key: spec_fn(E) -> K, val: spec_fn(E) -> V, e: E)
    ensures
        assoc_map(s.push(e), key, val) == assoc_map(s, key, val).insert(key(e), val(e)),
{
    assert(s.push(e).drop_last() =~= s);
    assert(s.push(e).last() == e);
}

/// With distinct keys, replacing the entry at `i` by one with the same key
/// re-binds that key and nothing else.
pub proof fn lemma_assoc_map_update<E, K, V>(
    s: Seq<E>,
    key: spec_fn(E) -> K,
    val: spec_fn(E) -> V,
    i: int,
    e: E,
)
    requires
        distinct_keys(s, key),
        0 <= i < s.len(),
        key(e) == key(s[i]),
    ensures
        assoc_map(s.update(i, e), key, val) == assoc_map(s, key, val).insert(key(e), val(e)),
    decreases s.len(),
{
    let t = s.update(i, e);
    if i == s.len() - 1 {
        assert(t.drop_last() =~= s.drop_last());
        assert(t.last() == e);
        assert(assoc_map(s.drop_last(), key, val).insert(key(s.last()), val(s.last())).insert(
            key(e),
            val(e),
        ) =~= assoc_map(s.drop_last(), key, val).insert(key(e), val(e)));
    } else {
        assert(distinct_keys(s.drop_last(), key)) by {
            assert(forall|p: int, q: int|
                0 <= p < q < s.drop_last().len() ==> s.drop_last()[p] == s[p] && s.drop_last()[q]
                    == s[q]);
        }
        lemma_assoc_map_update(s.drop_last(), key, val, i, e);
        assert(t.drop_last() =~= s.drop_last().update(i, e));
        assert(t.last() == s.last());
        assert(key(s[s.len() - 1]) != key(s[i]));
        assert(assoc_map(s.drop_last(), key, val).insert(key(e), val(e)).insert(
            key(s.last()),
            val(s.last()),
        ) =~= assoc_map(s.drop_last(), key, val).insert(key(s.last()), val(s.last())).insert(
            key(e),
            val(e),
        ));
    }
}

/// With distinct keys, the map binds exactly as many keys as there are
/// entries.
pub proof fn lemma_assoc_map_len<E, K, V>(s: Seq<E>, key: spec_fn(E) -> K, val: spec_fn(E) -> V)
    requires
        distinct_keys(s, key),
    ensures
        assoc_map(s, key, val).dom().finite(),
        assoc_map(s, key, val).dom().len() == s.len(),
    decreases s.len(),
{
    if s.len() == 0 {
        assert(assoc_map(s, key, val).dom() =~= Set::empty());
    } else {
        assert(distinct_keys(s.drop_last(), key)) by {
            assert(forall|p: int, q: int|
                0 <= p < q < s.drop_last().len() ==> s.drop_last()[p] == s[p] && s.drop_last()[q]
                    == s[q]);
        }
        lemma_assoc_map_len(s.drop_last(), key, val);
        lemma_assoc_map_contains(s.drop_last(), key, val, key(s.last()));
        assert(forall|j: int| 0 <= j < s.drop_last().len() ==> s.drop_last()[j] == s[j]);
        assert(!assoc_map(s.drop_last(), key, val).contains_key(key(s[s.len() - 1])));
        assert(assoc_map(s, key, val).dom() =~= assoc_map(s.drop_last(), key, val).dom().insert(
            key(s.last()),
        ));
    }
}

} // verus!
