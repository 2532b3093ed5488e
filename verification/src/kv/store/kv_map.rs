//! An association map keyed by the view of its keys, with no key stored twice.

use vstd::prelude::*;

use super::api::{after_batch_del, after_batch_set, after_set, batch_set_refused, set_refused, views, KvItem};

verus! {

/// Whether some key of `keys` has the view `k`.
pub open spec fn has_key<K: View>(keys: Seq<K>, k: K::V) -> bool {
    exists|i: int| 0 <= i < keys.len() && #[trigger] keys[i]@ == k
}

/// The position of the key with view `k` (meaningful when `has_key(keys, k)`).
pub open spec fn index_of<K: View>(keys: Seq<K>, k: K::V) -> int {
    choose|i: int| 0 <= i < keys.len() && #[trigger] keys[i]@ == k
}

/// No two keys of `keys` have the same view.
pub open spec fn distinct_keys<K: View>(keys: Seq<K>) -> bool {
    forall|i: int, j: int| 0 <= i < keys.len() && 0 <= j < keys.len() && i != j ==> #[trigger] keys[i]@ != #[trigger] keys[j]@
}

/// The map described by parallel key and value sequences.
pub open spec fn entries_map<K: View, V: View>(keys: Seq<K>, vals: Seq<V>) -> Map<K::V, V::V> {
    Map::new(|k: K::V| has_key(keys, k), |k: K::V| vals[index_of(keys, k)]@)
}

pub proof fn lemma_index_of_unique<K: View>(keys: Seq<K>, i: int)
    requires
        distinct_keys(keys),
        0 <= i < keys.len(),
    ensures
        has_key(keys, keys[i]@),
        index_of(keys, keys[i]@) == i,
{
    let k = keys[i]@;
    assert(has_key(keys, k));
    let j = index_of(keys, k);
    assert(0 <= j < keys.len() && keys[j]@ == k);
}

/// A finite map whose keys and values are stored side by side.
pub struct KvMap<K, V> {
    keys: Vec<K>,
    vals: Vec<V>,
}

impl<K: KvItem, V: KvItem> View for KvMap<K, V> {
    type V = Map<K::V, V::V>;

    closed spec fn view(&self) -> Map<K::V, V::V> {
        entries_map(self.keys@, self.vals@)
    }
}

impl<K: KvItem, V: KvItem> KvMap<K, V> {
    /// The map is well formed: one value per key, and no key twice.
    pub closed spec fn wf(&self) -> bool {
        &&& self.keys@.len() == self.vals@.len()
        &&& distinct_keys(self.keys@)
    }

    /// Creates an empty map.
    pub fn new() -> (m: Self)
        ensures
            m.wf(),
            m@ == Map::<K::V, V::V>::empty(),
    {
        let m = KvMap { keys: Vec::new(), vals: Vec::new() };
        assert(m@ =~= Map::<K::V, V::V>::empty());
        m
    }

    /// Creates an empty map with room for `capacity` entries.
    pub fn with_capacity(capacity: usize) -> (m: Self)
        ensures
            m.wf(),
            m@ == Map::<K::V, V::V>::empty(),
    {
        let m = KvMap { keys: Vec::with_capacity(capacity), vals: Vec::with_capacity(capacity) };
        assert(m@ =~= Map::<K::V, V::V>::empty());
        m
    }

    /// Finds the position of `key`.
    fn find(&self, key: &K) -> (r: Option<usize>)
        requires
            self.wf(),
        ensures
            match r {
                Some(i) => i < self.keys@.len() && self.keys@[i as int]@ == key@,
                None => !has_key(self.keys@, key@),
            },
    {
        let mut i: usize = 0;
        while i < self.keys.len()
            invariant
                i <= self.keys@.len(),
                forall|j: int| 0 <= j < i ==> self.keys@[j]@ != key@,
            decreases self.keys@.len() - i,
        {
            if self.keys[i].same(key) {
                return Some(i);
            }
            i += 1;
        }
        None
    }

    /// Whether `key` is present.
    pub fn contains_key(&self, key: &K) -> (b: bool)
        requires
            self.wf(),
        ensures
            b == self@.contains_key(key@),
    {
        match self.find(key) {
            Some(i) => {
                proof { lemma_index_of_unique(self.keys@, i as int); }
                true
            },
            None => false,
        }
    }

    /// A copy of the value stored under `key`, if any.
    pub fn get(&self, key: &K) -> (r: Option<V>)
        requires
            self.wf(),
        ensures
            match r {
                Some(v) => self@.contains_key(key@) && v@ == self@[key@],
                None => !self@.contains_key(key@),
            },
    {
        match self.find(key) {
            Some(i) => {
                proof { lemma_index_of_unique(self.keys@, i as int); }
                Some(self.vals[i].duplicate())
            },
            None => None,
        }
    }

    /// Stores `value` under `key`, replacing any earlier value.
    pub fn insert(&mut self, key: &K, value: &V)
        requires
            old(self).wf(),
        ensures
            final(self).wf(),
            final(self)@ == old(self)@.insert(key@, value@),
    {
        let ghost old_keys = self.keys@;
        let ghost old_vals = self.vals@;
        match self.find(key) {
            Some(i) => {
                let v = value.duplicate();
                self.vals.set(i, v);
                proof {
                    lemma_index_of_unique(old_keys, i as int);
                    assert forall|k: K::V| #[trigger] has_key(old_keys, k) && k != key@ implies index_of(old_keys, k) != i by {
                    }
                    assert(self@ =~= old(self)@.insert(key@, value@));
                }
            },
            None => {
                let k = key.duplicate();
                let v = value.duplicate();
                self.keys.push(k);
                self.vals.push(v);
                proof {
                    let n = old_keys.len() as int;
                    assert(distinct_keys(self.keys@));
                    lemma_index_of_unique(self.keys@, n);
                    assert forall|kk: K::V| #[trigger] has_key(self.keys@, kk) && kk != key@ implies
                        has_key(old_keys, kk) && index_of(self.keys@, kk) == index_of(old_keys, kk) by {
                        let j = choose|j: int| 0 <= j < self.keys@.len() && #[trigger] self.keys@[j]@ == kk;
                        assert(j < n);
                        assert(old_keys[j]@ == kk);
                        lemma_index_of_unique(old_keys, j);
                        lemma_index_of_unique(self.keys@, j);
                    }
                    assert forall|kk: K::V| #[trigger] has_key(old_keys, kk) implies has_key(self.keys@, kk) by {
                        let j = choose|j: int| 0 <= j < old_keys.len() && #[trigger] old_keys[j]@ == kk;
                        assert(self.keys@[j]@ == kk);
                    }
                    assert(self@ =~= old(self)@.insert(key@, value@));
                }
            },
        }
    }

    /// Removes `key`; a missing key leaves the map unchanged.
    pub fn remove(&mut self, key: &K)
        requires
            old(self).wf(),
        ensures
            final(self).wf(),
            final(self)@ == old(self)@.remove(key@),
    {
        let ghost old_keys = self.keys@;
        match self.find(key) {
            Some(i) => {
                self.keys.remove(i);
                self.vals.remove(i);
                proof {
                    let ii = i as int;
                    lemma_index_of_unique(old_keys, ii);
                    assert(distinct_keys(self.keys@)) by {
                        assert forall|a: int, b: int| 0 <= a < self.keys@.len() && 0 <= b < self.keys@.len() && a != b implies
                            #[trigger] self.keys@[a]@ != #[trigger] self.keys@[b]@ by {
                            let oa = if a < ii { a } else { a + 1 };
                            let ob = if b < ii { b } else { b + 1 };
                            assert(self.keys@[a] == old_keys[oa]);
                            assert(self.keys@[b] == old_keys[ob]);
                        }
                    }
                    assert forall|kk: K::V| #[trigger] has_key(self.keys@, kk) implies
                        kk != key@ && has_key(old_keys, kk) && {
                            let j = index_of(self.keys@, kk);
                            let oj = if j < ii { j } else { j + 1 };
                            index_of(old_keys, kk) == oj
                        } by {
                        let j = index_of(self.keys@, kk);
                        let oj = if j < ii { j } else { j + 1 };
                        assert(self.keys@[j] == old_keys[oj]);
                        lemma_index_of_unique(old_keys, oj);
                    }
                    assert forall|kk: K::V| #[trigger] has_key(old_keys, kk) && kk != key@ implies has_key(self.keys@, kk) by {
                        let oj = index_of(old_keys, kk);
                        assert(oj != ii);
                        let j = if oj < ii { oj } else { oj - 1 };
                        assert(self.keys@[j] == old_keys[oj]);
                    }
                    assert forall|kk: K::V| #[trigger] has_key(self.keys@, kk) implies
                        self.vals@[index_of(self.keys@, kk)] == old(self).vals@[index_of(old_keys, kk)] by {
                        let j = index_of(self.keys@, kk);
                        let oj = if j < ii { j } else { j + 1 };
                        assert(self.keys@[j] == old_keys[oj]);
                        lemma_index_of_unique(old_keys, oj);
                    }
                    assert(self@ =~= old(self)@.remove(key@));
                }
            },
            None => {
                assert(self@ =~= old(self)@.remove(key@));
            },
        }
    }

    /// Sets `key` to `value` unless `if_not_exist` holds and the key is present;
    /// tells whether the set took place.
    pub fn set_if(&mut self, key: &K, value: &V, if_not_exist: bool) -> (done: bool)
        requires
            old(self).wf(),
        ensures
            final(self).wf(),
            done == !set_refused(old(self)@, key@, if_not_exist),
            final(self)@ == after_set(old(self)@, key@, value@, if_not_exist),
    {
        if if_not_exist && self.contains_key(key) {
            false
        } else {
            self.insert(key, value);
            true
        }
    }

    /// Sets `keys[i]` to `vals[i]` for each `i` in order; tells for each whether it took place.
    pub fn set_all(&mut self, keys: &[K], vals: &[V], if_not_exist: bool) -> (done: Vec<bool>)
        requires
            old(self).wf(),
            keys@.len() == vals@.len(),
        ensures
            final(self).wf(),
            done@.len() == keys@.len(),
            forall|i: int| 0 <= i < keys@.len() ==> #[trigger] done@[i] == !batch_set_refused(old(self)@, views(keys@), views(vals@), if_not_exist, i),
            final(self)@ == after_batch_set(old(self)@, views(keys@), views(vals@), if_not_exist),
    {
        let ghost m0 = self@;
        let ghost ks = views(keys@);
        let ghost vs = views(vals@);
        let mut done: Vec<bool> = Vec::new();
        let mut i: usize = 0;
        proof {
            assert(ks.take(0) =~= Seq::<K::V>::empty());
            assert(vs.take(0) =~= Seq::<V::V>::empty());
        }
        while i < keys.len()
            invariant
                i <= keys@.len(),
                keys@.len() == vals@.len(),
                ks == views(keys@),
                vs == views(vals@),
                self.wf(),
                self@ == after_batch_set(m0, ks.take(i as int), vs.take(i as int), if_not_exist),
                done@.len() == i,
                forall|j: int| 0 <= j < i ==> #[trigger] done@[j] == !batch_set_refused(m0, ks, vs, if_not_exist, j),
            decreases keys@.len() - i,
        {
            let ok = self.set_if(&keys[i], &vals[i], if_not_exist);
            done.push(ok);
            proof {
                let ii = i as int;
                assert(ks.take(ii + 1).drop_last() =~= ks.take(ii));
                assert(vs.take(ii + 1).drop_last() =~= vs.take(ii));
                assert(ks.take(ii + 1).last() == keys@[ii]@);
                assert(vs.take(ii + 1)[ii] == vals@[ii]@);
            }
            i += 1;
        }
        proof {
            assert(ks.take(keys@.len() as int) =~= ks);
            assert(vs.take(keys@.len() as int) =~= vs);
        }
        done
    }

    /// Removes each key of `keys`.
    pub fn remove_all(&mut self, keys: &[K])
        requires
            old(self).wf(),
        ensures
            final(self).wf(),
            final(self)@ == after_batch_del(old(self)@, views(keys@)),
    {
        let ghost m0 = self@;
        let ghost ks = views(keys@);
        let mut i: usize = 0;
        proof {
            assert(ks.take(0) =~= Seq::<K::V>::empty());
        }
        while i < keys.len()
            invariant
                i <= keys@.len(),
                ks == views(keys@),
                self.wf(),
                self@ == after_batch_del(m0, ks.take(i as int)),
            decreases keys@.len() - i,
        {
            self.remove(&keys[i]);
            proof {
                let ii = i as int;
                assert(ks.take(ii + 1).drop_last() =~= ks.take(ii));
                assert(ks.take(ii + 1).last() == keys@[ii]@);
            }
            i += 1;
        }
        proof {
            assert(ks.take(keys@.len() as int) =~= ks);
        }
    }

    /// Removes every entry.
    pub fn clear(&mut self)
        ensures
            final(self).wf(),
            final(self)@ == Map::<K::V, V::V>::empty(),
    {
        self.keys.clear();
        self.vals.clear();
        assert(self@ =~= Map::<K::V, V::V>::empty());
    }
}

} // verus!
