//! The store that marks itself closed when closed.

use vstd::prelude::*;

use super::api::{IsSyncStore, KvError, KvItem, SetOptions, SyncStore};
use super::kv_map::KvMap;
use super::map_ops::{map_batch_del, map_batch_get, map_batch_set, map_del, map_get, map_set};

verus! {

/// Configuration of a `HashMapStore`.
#[derive(Debug, Clone, PartialEq, Eq, Structural)]
pub struct HashMapStoreConfig {
    /// Room to reserve at creation, if any.
    pub initial_capacity: Option<usize>,
}

impl Default for HashMapStoreConfig {
    fn default() -> (c: Self)
        ensures
            c.initial_capacity is None,
    {
        HashMapStoreConfig { initial_capacity: None }
    }
}

/// An in-memory store; closing it drops its contents and marks it closed.
pub struct HashMapStore<K, V> {
    map: KvMap<K, V>,
    closed: bool,
}

impl<K: KvItem, V: KvItem> HashMapStore<K, V> {
    /// Creates an empty store.
    pub fn new() -> (s: Self)
        ensures
            s.inv(),
            s.contents() == Map::<K::V, V::V>::empty(),
            !s.spec_closed(),
    {
        HashMapStore { map: KvMap::new(), closed: false }
    }

    /// Creates an empty store, reserving the configured room: the same store as `new`
    /// makes, the room aside.
    pub fn with_config(config: HashMapStoreConfig) -> (s: Self)
        ensures
            s.inv(),
            s.contents() == Map::<K::V, V::V>::empty(),
            !s.spec_closed(),
    {
        let map = match config.initial_capacity {
            Some(capacity) => KvMap::with_capacity(capacity),
            None => KvMap::new(),
        };
        HashMapStore { map, closed: false }
    }

    /// Whether the store has been closed.
    pub closed spec fn spec_closed(&self) -> bool {
        self.closed
    }

    /// Whether the store has been closed.
    pub fn is_closed(&self) -> (b: bool)
        ensures
            b == self.spec_closed(),
    {
        self.closed
    }
}

impl<K: KvItem, V: KvItem> Default for HashMapStore<K, V> {
    fn default() -> (s: Self)
        ensures
            s.inv(),
            s.contents() == Map::<K::V, V::V>::empty(),
            !s.spec_closed(),
    {
        Self::new()
    }
}

impl<K, V> IsSyncStore for HashMapStore<K, V> {}

impl<K: KvItem, V: KvItem> SyncStore<K, V> for HashMapStore<K, V> {
    closed spec fn inv(&self) -> bool {
        self.map.wf()
    }

    closed spec fn contents(&self) -> Map<K::V, V::V> {
        self.map@
    }

    open spec fn clears_on_close() -> bool {
        true
    }

    fn set_sync(&mut self, key: &K, value: &V, options: &SetOptions) -> (r: Result<(), KvError>)
        ensures
            final(self).spec_closed() == old(self).spec_closed(),
    {
        map_set(&mut self.map, key, value, options)
    }

    fn get_sync(&self, key: &K) -> (r: Result<V, KvError>) {
        map_get(&self.map, key)
    }

    fn del_sync(&mut self, key: &K) -> (r: Result<(), KvError>)
        ensures
            final(self).spec_closed() == old(self).spec_closed(),
    {
        map_del(&mut self.map, key)
    }

    fn batch_set_sync(&mut self, keys: &[K], vals: &[V], options: &SetOptions) -> (r: Result<Vec<Result<(), KvError>>, KvError>)
        ensures
            final(self).spec_closed() == old(self).spec_closed(),
    {
        map_batch_set(&mut self.map, keys, vals, options)
    }

    fn batch_get_sync(&self, keys: &[K]) -> (r: Result<(Vec<Option<V>>, Vec<Option<KvError>>), KvError>) {
        map_batch_get(&self.map, keys)
    }

    fn batch_del_sync(&mut self, keys: &[K]) -> (r: Result<Vec<Result<(), KvError>>, KvError>)
        ensures
            final(self).spec_closed() == old(self).spec_closed(),
    {
        map_batch_del(&mut self.map, keys)
    }

    /// Drops the contents and marks the store closed.
    fn close_sync(&mut self) -> (r: Result<(), KvError>)
        ensures
            final(self).spec_closed(),
    {
        self.map.clear();
        self.closed = true;
        Ok(())
    }
}

} // verus!
