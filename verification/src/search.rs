//! Looking a key up in a sequence: the first position that holds it.
use vstd::prelude::*;

verus! {

/// Whether `i` is the first position of `keys` that holds `k`.
pub open spec fn is_first<K>(keys: Seq<K>, k: K, i: int) -> bool {
    &&& 0 <= i < keys.len()
    &&& keys[i] == k
    &&& forall|j: int| 0 <= j < i ==> keys[j] != k
}

/// The first position of `keys` that holds `k`, if any does.
pub open spec fn position<K>(keys: Seq<K>, k: K) -> Option<int> {
    if exists|i: int| is_first(keys, k, i) {
        Some(choose|i: int| is_first(keys, k, i))
    } else {
        None
    }
}

/// Whether no two positions of `keys` hold the same key.
pub open spec fn distinct<K>(keys: Seq<K>) -> bool {
    forall|i: int, j: int| 0 <= i < j < keys.len() ==> keys[i] != keys[j]
}

/// A first position is the one that `position` gives.
pub proof fn lemma_position_found<K>(keys: Seq<K>, k: K, i: int)
    requires
        is_first(keys, k, i),
    ensures
        position(keys, k) == Some(i),
{
    let c = choose|c: int| is_first(keys, k, c);
    assert(is_first(keys, k, c));
    if c < i {
        assert(keys[c] != k);
    } else if i < c {
        assert(keys[i] != k);
    }
}

/// A key that no position holds has no position.
pub proof fn lemma_position_absent<K>(keys: Seq<K>, k: K)
    requires
        forall|j: int| 0 <= j < keys.len() ==> keys[j] != k,
    ensures
        position(keys, k) is None,
{
    if exists|i: int| is_first(keys, k, i) {
        let c = choose|c: int| is_first(keys, k, c);
        assert(keys[c] != k);
    }
}

/// What `position` says of its result.
pub proof fn lemma_position_is_first<K>(keys: Seq<K>, k: K)
    ensures
        match position(keys, k) {
            Some(i) => is_first(keys, k, i),
            None => forall|j: int| 0 <= j < keys.len() ==> keys[j] != k,
        },
{
    if exists|i: int| is_first(keys, k, i) {
    } else {
        assert forall|j: int| 0 <= j < keys.len() implies keys[j] != k by {
            if keys[j] == k {
                lemma_some_first(keys, k, j);
            }
        }
    }
}

/// Where a position holds the key, some position is the first to hold it.
proof fn lemma_some_first<K>(keys: Seq<K>, k: K, j: int)
    requires
        0 <= j < keys.len(),
        keys[j] == k,
    ensures
        exists|i: int| is_first(keys, k, i),
    decreases j,
{
    if exists|m: int| 0 <= m < j && keys[m] == k {
        let m = choose|m: int| 0 <= m < j && keys[m] == k;
        lemma_some_first(keys, k, m);
    } else {
        assert(is_first(keys, k, j));
    }
}

/// Among distinct keys, the position that holds a key is its first.
pub proof fn lemma_position_distinct<K>(keys: Seq<K>, i: int)
    requires
        distinct(keys),
        0 <= i < keys.len(),
    ensures
        position(keys, keys[i]) == Some(i),
{
    assert(is_first(keys, keys[i], i));
    lemma_position_found(keys, keys[i], i);
}

/// Appending a key leaves the position of every key that was present, and
/// gives an absent key the new last position.
pub proof fn lemma_position_push<K>(keys: Seq<K>, x: K, k: K)
    ensures
        position(keys, k) is Some ==> position(keys.push(x), k) == position(keys, k),
        position(keys, k) is None && x == k ==> position(keys.push(x), k) == Some(
            keys.len() as int,
        ),
        position(keys, k) is None && x != k ==> position(keys.push(x), k) is None,
{
    lemma_position_is_first(keys, k);
    let longer = keys.push(x);
    match position(keys, k) {
        Some(i) => {
            assert(is_first(longer, k, i));
            lemma_position_found(longer, k, i);
        },
        None => {
            if x == k {
                assert(is_first(longer, k, keys.len() as int));
                lemma_position_found(longer, k, keys.len() as int);
            } else {
                lemma_position_absent(longer, k);
            }
        },
    }
}


/// Whether `i` is the last position of `keys` that holds `k`.
pub open spec fn is_last<K>(keys: Seq<K>, k: K, i: int) -> bool {
    &&& 0 <= i < keys.len()
    &&& keys[i] == k
    &&& forall|j: int| i < j < keys.len() ==> keys[j] != k
}

/// The last position of `keys` that holds `k`, if any does.
pub open spec fn last_position<K>(keys: Seq<K>, k: K) -> Option<int> {
    if exists|i: int| is_last(keys, k, i) {
        Some(choose|i: int| is_last(keys, k, i))
    } else {
        None
    }
}

/// A last position is the one that `last_position` gives.
pub proof fn lemma_last_position_found<K>(keys: Seq<K>, k: K, i: int)
    requires
        is_last(keys, k, i),
    ensures
        last_position(keys, k) == Some(i),
{
    let c = choose|c: int| is_last(keys, k, c);
    assert(is_last(keys, k, c));
    if c < i {
        assert(keys[i] != k);
    } else if i < c {
        assert(keys[c] != k);
    }
}

/// A key that no position holds has no last position.
pub proof fn lemma_last_position_absent<K>(keys: Seq<K>, k: K)
    requires
        forall|j: int| 0 <= j < keys.len() ==> keys[j] != k,
    ensures
        last_position(keys, k) is None,
{
    if exists|i: int| is_last(keys, k, i) {
        let c = choose|c: int| is_last(keys, k, c);
        assert(keys[c] != k);
    }
}

} // verus!
