//! Laws of the store operations, stated over the contents the store contracts speak of.

use vstd::prelude::*;

use super::api::{after_batch_del, after_batch_set, after_set, set_refused};

verus! {

/// After an unconditional set, reading the key gives the value that was set.
pub proof fn law_read_after_set<K, V>(m: Map<K, V>, k: K, v: V)
    ensures
        !set_refused(m, k, false),
        after_set(m, k, v, false).contains_key(k),
        after_set(m, k, v, false)[k] == v,
{
}

/// A conditional set on a present key is refused and leaves every pair as it was;
/// on an absent key it sets the value.
pub proof fn law_conditional_set<K, V>(m: Map<K, V>, k: K, v: V)
    ensures
        m.contains_key(k) ==> set_refused(m, k, true) && after_set(m, k, v, true) == m,
        !m.contains_key(k) ==> !set_refused(m, k, true) && after_set(m, k, v, true)[k] == v,
{
}

/// A set changes no other key.
pub proof fn law_set_leaves_other_keys<K, V>(m: Map<K, V>, k: K, v: V, if_not_exist: bool, other: K)
    requires
        other != k,
    ensures
        after_set(m, k, v, if_not_exist).contains_key(other) == m.contains_key(other),
        m.contains_key(other) ==> after_set(m, k, v, if_not_exist)[other] == m[other],
{
}

/// After a delete the key is not found, and no other key changes.
pub proof fn law_delete<K, V>(m: Map<K, V>, k: K, other: K)
    requires
        other != k,
    ensures
        !m.remove(k).contains_key(k),
        m.remove(k).contains_key(other) == m.contains_key(other),
        m.contains_key(other) ==> m.remove(k)[other] == m[other],
{
}

/// An unconditional batch set of distinct keys sets each key to the value at its
/// position and changes no other key.
pub proof fn law_batch_set_distinct<K, V>(m: Map<K, V>, ks: Seq<K>, vs: Seq<V>)
    requires
        ks.len() == vs.len(),
        ks.no_duplicates(),
    ensures
        forall|i: int| 0 <= i < ks.len() ==> after_batch_set(m, ks, vs, false).contains_key(#[trigger] ks[i])
            && after_batch_set(m, ks, vs, false)[ks[i]] == vs[i],
        forall|k: K| !ks.contains(k) ==> (after_batch_set(m, ks, vs, false).contains_key(k) == m.contains_key(k))
            && (m.contains_key(k) ==> after_batch_set(m, ks, vs, false)[k] == m[k]),
    decreases ks.len(),
{
    if ks.len() > 0 {
        let ks0 = ks.drop_last();
        let vs0 = vs.drop_last();
        assert(ks0.no_duplicates());
        law_batch_set_distinct(m, ks0, vs0);
        let n = ks.len() - 1;
        assert forall|i: int| 0 <= i < ks.len() implies after_batch_set(m, ks, vs, false).contains_key(#[trigger] ks[i])
            && after_batch_set(m, ks, vs, false)[ks[i]] == vs[i] by {
            if i < n {
                assert(ks0[i] == ks[i]);
                assert(ks[i] != ks[n]);
            }
        }
        assert forall|k: K| !ks.contains(k) implies (after_batch_set(m, ks, vs, false).contains_key(k) == m.contains_key(k))
            && (m.contains_key(k) ==> after_batch_set(m, ks, vs, false)[k] == m[k]) by {
            assert(k != ks[n]);
            if ks0.contains(k) {
                let j = choose|j: int| 0 <= j < ks0.len() && ks0[j] == k;
                assert(ks[j] == k);
            }
        }
    }
}

/// After a batch delete no deleted key is found, and every other key is as it was.
pub proof fn law_batch_delete<K, V>(m: Map<K, V>, ks: Seq<K>)
    ensures
        forall|k: K| ks.contains(k) ==> !#[trigger] after_batch_del(m, ks).contains_key(k),
        forall|k: K| !ks.contains(k) ==> (#[trigger] after_batch_del(m, ks).contains_key(k) == m.contains_key(k))
            && (m.contains_key(k) ==> after_batch_del(m, ks)[k] == m[k]),
    decreases ks.len(),
{
    if ks.len() > 0 {
        let ks0 = ks.drop_last();
        let n = ks.len() - 1;
        law_batch_delete(m, ks0);
        assert(after_batch_del(m, ks) == after_batch_del(m, ks0).remove(ks[n]));
        assert forall|k: K| ks.contains(k) implies !#[trigger] after_batch_del(m, ks).contains_key(k) by {
            if k != ks[n] {
                let j = choose|j: int| 0 <= j < ks.len() && ks[j] == k;
                assert(j < n);
                assert(ks0[j] == k);
                assert(ks0.contains(k));
            }
        }
        assert forall|k: K| !ks.contains(k) implies (#[trigger] after_batch_del(m, ks).contains_key(k) == m.contains_key(k))
            && (m.contains_key(k) ==> after_batch_del(m, ks)[k] == m[k]) by {
            assert(k != ks[n]);
            if ks0.contains(k) {
                let j = choose|j: int| 0 <= j < ks0.len() && ks0[j] == k;
                assert(ks[j] == k);
            }
        }
    }
}

} // verus!
