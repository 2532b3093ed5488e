//! The store that keeps its contents when closed.

use vstd::prelude::*;

use super::api::{IsSyncStore, KvError, KvItem, SetOptions, SyncStore};
use super::kv_map::KvMap;
use super::map_ops::{map_batch_del, map_batch_get, map_batch_set, map_del, map_get, map_set};

verus! {

/// Configuration of a `DashMapStore`.
#[derive(Debug, Clone, PartialEq, Eq, Structural)]
pub struct DashMapStoreConfig {
    /// Room to reserve at creation, if any.
    pub initial_capacity: Option<usize>,
}

impl Default for DashMapStoreConfig {
    fn default() -> (c: Self)
        ensures
            c.initial_capacity is None,
    {
        DashMapStoreConfig { initial_capacity: None }
    }
}

/// An in-memory store; closing it releases nothing and keeps its contents.
pub struct DashMapStore<K, V> {
    map: KvMap<K, V>,
}

impl<K: KvItem, V: KvItem> DashMapStore<K, V> {
    /// Creates an empty store.
    pub fn new(config: DashMapStoreConfig) -> (s: Self)
        ensures
            s.inv(),
            s.contents() == Map::<K::V, V::V>::empty(),
    {
        let map = match config.initial_capacity {
            Some(capacity) => KvMap::with_capacity(capacity),
            None => KvMap::new(),
        };
        DashMapStore { map }
    }
}

impl<K: KvItem, V: KvItem> Default for DashMapStore<K, V> {
    fn default() -> (s: Self)
        ensures
            s.inv(),
            s.contents() == Map::<K::V, V::V>::empty(),
    {
        Self::new(DashMapStoreConfig::default())
    }
}

impl<K, V> IsSyncStore for DashMapStore<K, V> {}

impl<K: KvItem, V: KvItem> SyncStore<K, V> for DashMapStore<K, V> {
    closed spec fn inv(&self) -> bool {
        self.map.wf()
    }

    closed spec fn contents(&self) -> Map<K::V, V::V> {
        self.map@
    }

    open spec fn clears_on_close() -> bool {
        false
    }

    fn set_sync(&mut self, key: &K, value: &V, options: &SetOptions) -> (r: Result<(), KvError>) {
        map_set(&mut self.map, key, value, options)
    }

    fn get_sync(&self, key: &K) -> (r: Result<V, KvError>) {
        map_get(&self.map, key)
    }

    fn del_sync(&mut self, key: &K) -> (r: Result<(), KvError>) {
        map_del(&mut self.map, key)
    }

    fn batch_set_sync(&mut self, keys: &[K], vals: &[V], options: &SetOptions) -> (r: Result<Vec<Result<(), KvError>>, KvError>) {
        map_batch_set(&mut self.map, keys, vals, options)
    }

    fn batch_get_sync(&self, keys: &[K]) -> (r: Result<(Vec<Option<V>>, Vec<Option<KvError>>), KvError>) {
        map_batch_get(&self.map, keys)
    }

    fn batch_del_sync(&mut self, keys: &[K]) -> (r: Result<Vec<Result<(), KvError>>, KvError>) {
        map_batch_del(&mut self.map, keys)
    }

    fn close_sync(&mut self) -> (r: Result<(), KvError>) {
        Ok(())
    }
}

} // verus!
