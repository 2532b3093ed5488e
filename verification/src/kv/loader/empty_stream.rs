//! A stream without records.

use vstd::prelude::*;

use crate::kv::parser::core_types::ChangeType;
use super::api::{KvStream, LoaderError};

verus! {

/// A stream that holds no record: `each` never calls its callback.
pub struct EmptyStream<K, V> {
    _phantom: std::marker::PhantomData<(K, V)>,
}

impl<K, V> EmptyStream<K, V> {
    /// Creates the empty stream.
    pub fn new() -> (s: Self) {
        EmptyStream { _phantom: std::marker::PhantomData }
    }
}

impl<K, V> Default for EmptyStream<K, V> {
    fn default() -> (s: Self) {
        Self::new()
    }
}

impl<K, V> KvStream<K, V> for EmptyStream<K, V> {
    fn each<F: Fn(ChangeType, K, V) -> Result<(), LoaderError>>(&self, callback: &F) -> (r: Result<(), LoaderError>)
        ensures
            r is Ok,
    {
        Ok(())
    }
}

} // verus!
