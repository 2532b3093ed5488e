pub mod api;
pub mod kv_map;
pub mod map_ops;
pub mod rwlock_hash_map_store;
pub mod unsafe_hash_map_store;
pub mod dash_map_store;
pub mod hash_map_store;
pub mod safe_hash_map_store;
pub mod common_tests;
pub mod laws;
pub mod loadable_sync_store;
pub mod redis_store;
