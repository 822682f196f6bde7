//! A sequence of key-value pairs read as a finite map.
//!
//! The stores of this crate keep their entries in vectors and find them by a
//! scan. These functions say which map such a vector stands for, and how the
//! map follows the vector through an update, a push and a removal.

use vstd::prelude::*;

verus! {

/// Some entry of `t` has the key `k`.
pub open spec fn has_key<K, V>(t: Seq<(K, V)>, k: K) -> bool {
    exists|i: int| 0 <= i < t.len() && (#[trigger] t[i]).0 == k
}

/// The place of an entry with key `k`, where there is one.
pub open spec fn index_of<K, V>(t: Seq<(K, V)>, k: K) -> int {
    choose|i: int| 0 <= i < t.len() && (#[trigger] t[i]).0 == k
}

/// No key occurs twice in `t`.
pub open spec fn distinct_keys<K, V>(t: Seq<(K, V)>) -> bool {
    forall|i: int, j: int|
        0 <= i < t.len() && 0 <= j < t.len() && i != j ==> (#[trigger] t[i]).0 != (#[trigger] t[j]).0
}

/// The map that `t` stands for.
pub open spec fn as_map<K, V>(t: Seq<(K, V)>) -> Map<K, V> {
    Map::new(|k: K| has_key(t, k), |k: K| t[index_of(t, k)].1)
}

/// An entry is found under its own key.
pub proof fn lemma_entry<K, V>(t: Seq<(K, V)>, i: int)
    requires
        distinct_keys(t),
        0 <= i < t.len(),
    ensures
        has_key(t, t[i].0),
        index_of(t, t[i].0) == i,
        as_map(t).contains_key(t[i].0),
        as_map(t)[t[i].0] == t[i].1,
{
    let k = t[i].0;
    assert(has_key(t, k));
    let j = index_of(t, k);
    assert(0 <= j < t.len() && t[j].0 == k);
}

/// Writing a new value over entry `i` inserts it in the map.
pub proof fn lemma_update<K, V>(t: Seq<(K, V)>, i: int, v: V)
    requires
        distinct_keys(t),
        0 <= i < t.len(),
    ensures
        distinct_keys(t.update(i, (t[i].0, v))),
        as_map(t.update(i, (t[i].0, v))) == as_map(t).insert(t[i].0, v),
{
    let u = t.update(i, (t[i].0, v));
    assert(distinct_keys(u)) by {
        assert forall|a: int, b: int| 0 <= a < u.len() && 0 <= b < u.len() && a != b implies (
        #[trigger] u[a]).0 != (#[trigger] u[b]).0 by {
            assert(u[a].0 == t[a].0 && u[b].0 == t[b].0);
        }
    }
    assert forall|k: K| has_key(u, k) <==> has_key(t, k) by {
        if has_key(u, k) {
            let j = index_of(u, k);
            assert(t[j].0 == k);
        }
        if has_key(t, k) {
            let j = index_of(t, k);
            assert(u[j].0 == k);
        }
    }
    assert forall|k: K| has_key(u, k) implies #[trigger] as_map(u)[k] == as_map(t).insert(
        t[i].0,
        v,
    )[k] by {
        let j = index_of(u, k);
        lemma_entry(u, j);
        assert(t[j].0 == k);
        lemma_entry(t, j);
    }
    assert(as_map(u) =~= as_map(t).insert(t[i].0, v)) by {
        lemma_entry(t, i);
    }
}

/// Pushing an entry with a new key inserts it in the map.
pub proof fn lemma_push<K, V>(t: Seq<(K, V)>, k: K, v: V)
    requires
        distinct_keys(t),
        !has_key(t, k),
    ensures
        distinct_keys(t.push((k, v))),
        as_map(t.push((k, v))) == as_map(t).insert(k, v),
{
    let u = t.push((k, v));
    assert(distinct_keys(u)) by {
        assert forall|a: int, b: int| 0 <= a < u.len() && 0 <= b < u.len() && a != b implies (
        #[trigger] u[a]).0 != (#[trigger] u[b]).0 by {
            if a < t.len() {
                assert(u[a] == t[a]);
            }
            if b < t.len() {
                assert(u[b] == t[b]);
            }
        }
    }
    assert forall|x: K| has_key(u, x) <==> (has_key(t, x) || x == k) by {
        if has_key(u, x) {
            let j = index_of(u, x);
            if j < t.len() {
                assert(t[j].0 == x);
            }
        }
        if has_key(t, x) {
            let j = index_of(t, x);
            assert(u[j].0 == x);
        }
        if x == k {
            assert(u[t.len() as int].0 == x);
        }
    }
    assert forall|x: K| has_key(u, x) implies #[trigger] as_map(u)[x] == as_map(t).insert(k, v)[x] by {
        let j = index_of(u, x);
        lemma_entry(u, j);
        if j < t.len() {
            assert(t[j] == u[j]);
            lemma_entry(t, j);
        }
    }
    assert(as_map(u) =~= as_map(t).insert(k, v));
}

/// Taking entry `i` out removes its key from the map.
pub proof fn lemma_remove<K, V>(t: Seq<(K, V)>, i: int)
    requires
        distinct_keys(t),
        0 <= i < t.len(),
    ensures
        distinct_keys(t.remove(i)),
        as_map(t.remove(i)) == as_map(t).remove(t[i].0),
{
    let u = t.remove(i);
    let k = t[i].0;
    assert forall|a: int| 0 <= a < u.len() implies #[trigger] u[a] == t[if a < i {
        a
    } else {
        a + 1
    }] by {}
    assert(distinct_keys(u)) by {
        assert forall|a: int, b: int| 0 <= a < u.len() && 0 <= b < u.len() && a != b implies (
        #[trigger] u[a]).0 != (#[trigger] u[b]).0 by {
            let a2 = if a < i { a } else { a + 1 };
            let b2 = if b < i { b } else { b + 1 };
            assert(u[a] == t[a2] && u[b] == t[b2]);
        }
    }
    assert forall|x: K| has_key(u, x) <==> (has_key(t, x) && x != k) by {
        if has_key(u, x) {
            let j = index_of(u, x);
            let j2 = if j < i { j } else { j + 1 };
            assert(u[j] == t[j2]);
            assert(t[j2].0 == x);
        }
        if has_key(t, x) && x != k {
            let j = index_of(t, x);
            let j2 = if j < i { j } else { j - 1 };
            assert(u[j2] == t[j]);
            assert(u[j2].0 == x);
        }
    }
    assert forall|x: K| has_key(u, x) implies #[trigger] as_map(u)[x] == as_map(t).remove(k)[x] by {
        let j = index_of(u, x);
        let j2 = if j < i { j } else { j + 1 };
        lemma_entry(u, j);
        assert(u[j] == t[j2]);
        lemma_entry(t, j2);
    }
    assert(as_map(u) =~= as_map(t).remove(k));
}

} // verus!
