//! Key/value storage, record parsing and log formatting.

pub mod kv;
pub mod text;
pub mod log;
