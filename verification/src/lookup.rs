//! Lists of keyed entries read as maps: the entry found under a key is the
//! first one that carries it.

use vstd::prelude::*;

verus! {

/// Where `k` first occurs in `keys`; the length of `keys` where it does not
/// occur.
pub open spec fn first_index<K>(keys: Seq<K>, k: K) -> int
    decreases keys.len(),
{
    if keys.len() == 0 {
        0
    } else if keys[0] == k {
        0
    } else {
        1 + first_index(keys.drop_first(), k)
    }
}

/// The map that a list of keys and the list of their values stand for: each
/// key that occurs is mapped to the value at its first occurrence.
pub open spec fn keyed<K, V>(keys: Seq<K>, values: Seq<V>) -> Map<K, V> {
    Map::new(|k: K| keys.contains(k), |k: K| values[first_index(keys, k)])
}

/// `first_index` is the least index that carries the key.
pub proof fn lemma_first_index<K>(keys: Seq<K>, k: K)
    ensures
        0 <= first_index(keys, k) <= keys.len(),
        first_index(keys, k) < keys.len() <==> keys.contains(k),
        first_index(keys, k) < keys.len() ==> keys[first_index(keys, k)] == k,
        forall|j: int| 0 <= j < first_index(keys, k) ==> #[trigger] keys[j] != k,
    decreases keys.len(),
{
    if keys.len() == 0 {
    } else if keys[0] == k {
        assert(keys.contains(k));
    } else {
        let rest = keys.drop_first();
        lemma_first_index(rest, k);
        let fi = first_index(keys, k);
        if fi < keys.len() {
            assert(keys[fi] == rest[fi - 1]);
            assert(keys.contains(k));
        }
        if keys.contains(k) {
            let i = choose|i: int| 0 <= i < keys.len() && keys[i] == k;
            assert(rest[i - 1] == k);
            assert(rest.contains(k));
        }
        assert forall|j: int| 0 <= j < fi implies #[trigger] keys[j] != k by {
            if j > 0 {
                assert(keys[j] == rest[j - 1]);
            }
        }
    }
}

/// An index that carries the key, with no earlier one that does, is the
/// first index.
pub proof fn lemma_first_index_is<K>(keys: Seq<K>, k: K, i: int)
    requires
        0 <= i < keys.len(),
        keys[i] == k,
        forall|j: int| 0 <= j < i ==> #[trigger] keys[j] != k,
    ensures
        first_index(keys, k) == i,
{
    lemma_first_index(keys, k);
    let fi = first_index(keys, k);
    assert(keys.contains(k));
    if fi < i {
        assert(keys[fi] != k);
    }
}

/// A list of keys and values stands for a map with finitely many keys.
pub proof fn lemma_keyed_domain<K, V>(keys: Seq<K>, values: Seq<V>)
    ensures
        keyed(keys, values).dom() == keys.to_set(),
        keyed(keys, values).dom().finite(),
{
    broadcast use vstd::seq_lib::seq_to_set_is_finite;

    assert(keyed(keys, values).dom() =~= keys.to_set());
}

/// Replacing the value at the first occurrence of a key replaces what the
/// map holds under that key, and nothing else.
pub proof fn lemma_keyed_update<K, V>(keys: Seq<K>, values: Seq<V>, k: K, v: V)
    requires
        keys.contains(k),
        values.len() == keys.len(),
    ensures
        keyed(keys, values.update(first_index(keys, k), v)) == keyed(keys, values).insert(k, v),
{
    lemma_first_index(keys, k);
    let fi = first_index(keys, k);
    let updated = keyed(keys, values.update(fi, v));
    let inserted = keyed(keys, values).insert(k, v);
    assert forall|q: K| updated.dom().contains(q) implies #[trigger] updated[q] == inserted[q] by {
        lemma_first_index(keys, q);
    }
    assert(updated =~= inserted);
}

/// Appending a key that does not occur yet adds it to the map, and changes
/// nothing else.
pub proof fn lemma_keyed_push<K, V>(keys: Seq<K>, values: Seq<V>, k: K, v: V)
    requires
        !keys.contains(k),
        values.len() == keys.len(),
    ensures
        keyed(keys.push(k), values.push(v)) == keyed(keys, values).insert(k, v),
{
    let pushed = keyed(keys.push(k), values.push(v));
    let inserted = keyed(keys, values).insert(k, v);
    assert forall|q: K| pushed.dom().contains(q) <==> inserted.dom().contains(q) by {
        if keys.push(k).contains(q) {
            let i = choose|i: int| 0 <= i < keys.push(k).len() && keys.push(k)[i] == q;
            if i < keys.len() {
                assert(keys[i] == q);
            }
        }
        if keys.contains(q) {
            let i = choose|i: int| 0 <= i < keys.len() && keys[i] == q;
            assert(keys.push(k)[i] == q);
        }
        if q == k {
            assert(keys.push(k)[keys.len() as int] == k);
        }
    }
    assert forall|q: K| pushed.dom().contains(q) implies #[trigger] pushed[q] == inserted[q] by {
        lemma_first_index(keys, q);
        lemma_first_index(keys.push(k), q);
        let fi = first_index(keys.push(k), q);
        if q == k {
            assert forall|j: int| 0 <= j < keys.len() implies #[trigger] keys.push(k)[j] != k by {
                assert(keys.push(k)[j] == keys[j]);
            }
            lemma_first_index_is(keys.push(k), k, keys.len() as int);
        } else {
            assert(fi < keys.len());
            let gi = first_index(keys, q);
            assert(keys.contains(q)) by {
                assert(keys[fi] == q);
            }
            assert forall|j: int| 0 <= j < gi implies #[trigger] keys.push(k)[j] != q by {
                assert(keys.push(k)[j] == keys[j]);
            }
            assert(keys.push(k)[gi] == q);
            lemma_first_index_is(keys.push(k), q, gi);
        }
    }
    assert(pushed =~= inserted);
}

/// No key occurs twice in `keys`.
pub open spec fn distinct<K>(keys: Seq<K>) -> bool {
    forall|i: int, j: int| 0 <= i < j < keys.len() ==> keys[i] != keys[j]
}


/// The keys of a list, each once, in the order in which they first occur.
pub open spec fn first_occurrences<K>(keys: Seq<K>) -> Seq<K>
    decreases keys.len(),
{
    if keys.len() == 0 {
        Seq::empty()
    } else {
        let before = first_occurrences(keys.drop_last());
        if before.contains(keys.last()) {
            before
        } else {
            before.push(keys.last())
        }
    }
}

/// No key occurs twice among the first occurrences.
pub proof fn lemma_first_occurrences_distinct<K>(keys: Seq<K>)
    ensures
        distinct(first_occurrences(keys)),
    decreases keys.len(),
{
    if keys.len() > 0 {
        lemma_first_occurrences_distinct(keys.drop_last());
    }
}

} // verus!
