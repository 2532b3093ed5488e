//! The single-owner store.

use vstd::prelude::*;

use super::api::{IsSyncStore, KvError, KvItem, SetOptions, SyncStore};
use super::kv_map::KvMap;
use super::map_ops::{map_batch_del, map_batch_get, map_batch_set, map_del, map_get, map_set};

verus! {

/// Configuration of a `UnsafeHashMapStore`.
#[derive(Debug, Clone, PartialEq, Eq, Structural)]
pub struct UnsafeHashMapStoreConfig {
    /// Room to reserve at creation, if any.
    pub initial_capacity: Option<usize>,
}

impl Default for UnsafeHashMapStoreConfig {
    fn default() -> (c: Self)
        ensures
            c.initial_capacity is None,
    {
        UnsafeHashMapStoreConfig { initial_capacity: None }
    }
}

/// An in-memory store for one owner; closing it drops its contents.
pub struct UnsafeHashMapStore<K, V> {
    map: KvMap<K, V>,
}

impl<K: KvItem, V: KvItem> UnsafeHashMapStore<K, V> {
    /// Creates an empty store.
    pub fn new(config: UnsafeHashMapStoreConfig) -> (s: Self)
        ensures
            s.inv(),
            s.contents() == Map::<K::V, V::V>::empty(),
    {
        let map = match config.initial_capacity {
            Some(capacity) => KvMap::with_capacity(capacity),
            None => KvMap::new(),
        };
        UnsafeHashMapStore { map }
    }
}

impl<K: KvItem, V: KvItem> Default for UnsafeHashMapStore<K, V> {
    fn default() -> (s: Self)
        ensures
            s.inv(),
            s.contents() == Map::<K::V, V::V>::empty(),
    {
        Self::new(UnsafeHashMapStoreConfig::default())
    }
}

impl<K, V> IsSyncStore for UnsafeHashMapStore<K, V> {}

impl<K: KvItem, V: KvItem> SyncStore<K, V> for UnsafeHashMapStore<K, V> {
    closed spec fn inv(&self) -> bool {
        self.map.wf()
    }

    closed spec fn contents(&self) -> Map<K::V, V::V> {
        self.map@
    }

    open spec fn clears_on_close() -> bool {
        true
    }

    fn set_sync(&mut self, key: &K, value: &V, options: &SetOptions) -> (r: Result<(), KvError>) {
        map_set(&mut self.map, key, value, options)
    }

    fn get_sync(&self, key: &K) -> (r: Result<V, KvError>) {
        map_get(&self.map, key)
    }

    fn del_sync(&mut self, key: &K) -> (r: Result<(), KvError>) {
        map_del(&mut self.map, key)
    }

    fn batch_set_sync(&mut self, keys: &[K], vals: &[V], options: &SetOptions) -> (r: Result<Vec<Result<(), KvError>>, KvError>) {
        map_batch_set(&mut self.map, keys, vals, options)
    }

    fn batch_get_sync(&self, keys: &[K]) -> (r: Result<(Vec<Option<V>>, Vec<Option<KvError>>), KvError>) {
        map_batch_get(&self.map, keys)
    }

    fn batch_del_sync(&mut self, keys: &[K]) -> (r: Result<Vec<Result<(), KvError>>, KvError>) {
        map_batch_del(&mut self.map, keys)
    }

    fn close_sync(&mut self) -> (r: Result<(), KvError>) {
        self.map.clear();
        Ok(())
    }
}

} // verus!
