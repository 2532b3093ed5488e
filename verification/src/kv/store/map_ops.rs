//! The store operations on a `KvMap`, shared by the in-memory stores.

use vstd::prelude::*;

use super::api::{after_batch_del, after_batch_set, after_set, batch_set_refused, length_mismatch_message, set_refused, views, KvError, KvItem, SetOptions};
use super::kv_map::KvMap;

verus! {

/// Sets `key` to `value` under `options`.
pub fn map_set<K: KvItem, V: KvItem>(map: &mut KvMap<K, V>, key: &K, value: &V, options: &SetOptions) -> (r: Result<(), KvError>)
    requires
        old(map).wf(),
    ensures
        final(map).wf(),
        final(map)@ == after_set(old(map)@, key@, value@, options.if_not_exist),
        r is Ok <==> !set_refused(old(map)@, key@, options.if_not_exist),
        r is Err ==> r matches Err(KvError::ConditionFailed),
{
    if map.set_if(key, value, options.if_not_exist) {
        Ok(())
    } else {
        Err(KvError::ConditionFailed)
    }
}

/// The value of `key`, or `KeyNotFound`.
pub fn map_get<K: KvItem, V: KvItem>(map: &KvMap<K, V>, key: &K) -> (r: Result<V, KvError>)
    requires
        map.wf(),
    ensures
        match r {
            Ok(v) => map@.contains_key(key@) && v@ == map@[key@],
            Err(e) => !map@.contains_key(key@) && e matches KvError::KeyNotFound,
        },
{
    match map.get(key) {
        Some(v) => Ok(v),
        None => Err(KvError::KeyNotFound),
    }
}

/// Deletes `key`.
pub fn map_del<K: KvItem, V: KvItem>(map: &mut KvMap<K, V>, key: &K) -> (r: Result<(), KvError>)
    requires
        old(map).wf(),
    ensures
        final(map).wf(),
        final(map)@ == old(map)@.remove(key@),
        r is Ok,
{
    map.remove(key);
    Ok(())
}

/// Sets each key to the value at the same position.
pub fn map_batch_set<K: KvItem, V: KvItem>(map: &mut KvMap<K, V>, keys: &[K], vals: &[V], options: &SetOptions) -> (r: Result<Vec<Result<(), KvError>>, KvError>)
    requires
        old(map).wf(),
    ensures
        final(map).wf(),
        keys@.len() != vals@.len() ==> {
            &&& r matches Err(KvError::Other(msg)) && msg@ == length_mismatch_message()
            &&& final(map)@ == old(map)@
        },
        keys@.len() == vals@.len() ==> {
            &&& r matches Ok(rs) && rs@.len() == keys@.len() && forall|i: int| 0 <= i < keys@.len() ==> {
                    &&& (#[trigger] rs@[i] is Ok <==> !batch_set_refused(old(map)@, views(keys@), views(vals@), options.if_not_exist, i))
                    &&& (rs@[i] is Err ==> rs@[i] matches Err(KvError::ConditionFailed))
                }
            &&& final(map)@ == after_batch_set(old(map)@, views(keys@), views(vals@), options.if_not_exist)
        },
{
    if keys.len() != vals.len() {
        return Err(KvError::Other("Keys and values length mismatch".to_owned()));
    }
    let done = map.set_all(keys, vals, options.if_not_exist);
    let mut results: Vec<Result<(), KvError>> = Vec::with_capacity(keys.len());
    let mut i: usize = 0;
    while i < done.len()
        invariant
            i <= done@.len(),
            results@.len() == i,
            forall|j: int| 0 <= j < i ==> {
                &&& (#[trigger] results@[j] is Ok <==> done@[j])
                &&& (results@[j] is Err ==> results@[j] matches Err(KvError::ConditionFailed))
            },
        decreases done@.len() - i,
    {
        if done[i] {
            results.push(Ok(()));
        } else {
            results.push(Err(KvError::ConditionFailed));
        }
        i += 1;
    }
    Ok(results)
}

/// The value of each key, with a `KeyNotFound` error beside each missing one.
pub fn map_batch_get<K: KvItem, V: KvItem>(map: &KvMap<K, V>, keys: &[K]) -> (r: Result<(Vec<Option<V>>, Vec<Option<KvError>>), KvError>)
    requires
        map.wf(),
    ensures
        r matches Ok((vs, es)) && vs@.len() == keys@.len() && es@.len() == keys@.len()
            && forall|i: int| 0 <= i < keys@.len() ==> if map@.contains_key(#[trigger] keys@[i]@) {
                &&& vs@[i] matches Some(v) && v@ == map@[keys@[i]@]
                &&& es@[i] is None
            } else {
                &&& vs@[i] is None
                &&& es@[i] matches Some(KvError::KeyNotFound)
            },
{
    let mut values: Vec<Option<V>> = Vec::with_capacity(keys.len());
    let mut errors: Vec<Option<KvError>> = Vec::with_capacity(keys.len());
    let mut i: usize = 0;
    while i < keys.len()
        invariant
            i <= keys@.len(),
            map.wf(),
            values@.len() == i,
            errors@.len() == i,
            forall|j: int| 0 <= j < i ==> if map@.contains_key(#[trigger] keys@[j]@) {
                &&& values@[j] matches Some(v) && v@ == map@[keys@[j]@]
                &&& errors@[j] is None
            } else {
                &&& values@[j] is None
                &&& errors@[j] matches Some(KvError::KeyNotFound)
            },
        decreases keys@.len() - i,
    {
        match map.get(&keys[i]) {
            Some(v) => {
                values.push(Some(v));
                errors.push(None);
            },
            None => {
                values.push(None);
                errors.push(Some(KvError::KeyNotFound));
            },
        }
        i += 1;
    }
    Ok((values, errors))
}

/// Deletes each key.
pub fn map_batch_del<K: KvItem, V: KvItem>(map: &mut KvMap<K, V>, keys: &[K]) -> (r: Result<Vec<Result<(), KvError>>, KvError>)
    requires
        old(map).wf(),
    ensures
        final(map).wf(),
        final(map)@ == after_batch_del(old(map)@, views(keys@)),
        r matches Ok(rs) && rs@.len() == keys@.len() && forall|i: int| 0 <= i < keys@.len() ==> #[trigger] rs@[i] is Ok,
{
    map.remove_all(keys);
    let mut results: Vec<Result<(), KvError>> = Vec::with_capacity(keys.len());
    let mut i: usize = 0;
    while i < keys.len()
        invariant
            i <= keys@.len(),
            results@.len() == i,
            forall|j: int| 0 <= j < i ==> #[trigger] results@[j] is Ok,
        decreases keys@.len() - i,
    {
        results.push(Ok(()));
        i += 1;
    }
    Ok(results)
}

} // verus!
