//! Store errors, set options, the item model shared by the stores, and the store interfaces.

use vstd::prelude::*;

verus! {

/// A key or value a store can hold: it can be copied and compared, both by its view.
pub trait KvItem: View + Sized {
    /// A copy with the same view.
    fn duplicate(&self) -> (r: Self)
        ensures
            r@ == self@,
    ;

    /// Whether the two items have the same view.
    fn same(&self, other: &Self) -> (b: bool)
        ensures
            b == (self@ == other@),
    ;
}

impl KvItem for String {
    fn duplicate(&self) -> (r: Self) {
        self.clone()
    }

    fn same(&self, other: &Self) -> (b: bool) {
        *self == *other
    }
}

impl KvItem for i32 {
    fn duplicate(&self) -> (r: Self) {
        *self
    }

    fn same(&self, other: &Self) -> (b: bool) {
        *self == *other
    }
}

impl KvItem for i64 {
    fn duplicate(&self) -> (r: Self) {
        *self
    }

    fn same(&self, other: &Self) -> (b: bool) {
        *self == *other
    }
}

impl KvItem for u32 {
    fn duplicate(&self) -> (r: Self) {
        *self
    }

    fn same(&self, other: &Self) -> (b: bool) {
        *self == *other
    }
}

impl KvItem for u64 {
    fn duplicate(&self) -> (r: Self) {
        *self
    }

    fn same(&self, other: &Self) -> (b: bool) {
        *self == *other
    }
}

impl KvItem for usize {
    fn duplicate(&self) -> (r: Self) {
        *self
    }

    fn same(&self, other: &Self) -> (b: bool) {
        *self == *other
    }
}

impl KvItem for bool {
    fn duplicate(&self) -> (r: Self) {
        *self
    }

    fn same(&self, other: &Self) -> (b: bool) {
        *self == *other
    }
}

/// Errors of the key/value stores.
#[derive(Debug, Clone)]
pub enum KvError {
    KeyNotFound,
    ConditionFailed,
    Other(String),
}

impl KvError {
    /// The text of the error, as the stores report it.
    pub fn message(&self) -> (s: String)
        ensures
            s@ == self.spec_message(),
    {
        match self {
            KvError::KeyNotFound => "Key not found".to_owned(),
            KvError::ConditionFailed => "Condition failed".to_owned(),
            KvError::Other(msg) => {
                let mut s = "Other error: ".to_owned();
                s.append(msg.as_str());
                s
            },
        }
    }

    pub open spec fn spec_message(&self) -> Seq<char> {
        match self {
            KvError::KeyNotFound => "Key not found"@,
            KvError::ConditionFailed => "Condition failed"@,
            KvError::Other(msg) => "Other error: "@ + msg@,
        }
    }
}

/// Options of a set: an expiration (ignored by the in-memory stores) and the
/// "only if the key is absent" condition.
#[derive(Debug, Clone)]
pub struct SetOptions {
    /// How long the key lives, as whole seconds and the nanoseconds beyond them.
    pub expiration: Option<(u64, u32)>,
    pub if_not_exist: bool,
}

impl SetOptions {
    /// Options with no expiration and no condition.
    pub fn new() -> (o: Self)
        ensures
            o.expiration is None,
            !o.if_not_exist,
    {
        SetOptions { expiration: None, if_not_exist: false }
    }

    /// The same options, the key living `secs` seconds and `nanos` nanoseconds.
    pub fn with_expiration(self, secs: u64, nanos: u32) -> (o: Self)
        ensures
            o.expiration == Some((secs, nanos)),
            o.if_not_exist == self.if_not_exist,
    {
        SetOptions { expiration: Some((secs, nanos)), if_not_exist: self.if_not_exist }
    }

    /// The same options, setting only when the key is absent.
    pub fn with_if_not_exist(self) -> (o: Self)
        ensures
            o.expiration == self.expiration,
            o.if_not_exist,
    {
        SetOptions { expiration: self.expiration, if_not_exist: true }
    }
}

impl Default for SetOptions {
    /// Options with no expiration and no condition, as `new` makes.
    fn default() -> (o: Self)
        ensures
            o.expiration is None,
            !o.if_not_exist,
    {
        SetOptions::new()
    }
}

/// The views of the items of `s`, in order.
pub open spec fn views<T: View>(s: Seq<T>) -> Seq<T::V> {
    s.map_values(|t: T| t@)
}

/// The message of a batch set whose keys and values differ in number.
pub open spec fn length_mismatch_message() -> Seq<char> {
    "Keys and values length mismatch"@
}

/// A set is refused when it may only add and the key is already there.
pub open spec fn set_refused<K, V>(m: Map<K, V>, k: K, if_not_exist: bool) -> bool {
    if_not_exist && m.contains_key(k)
}

/// The contents after a set.
pub open spec fn after_set<K, V>(m: Map<K, V>, k: K, v: V, if_not_exist: bool) -> Map<K, V> {
    if set_refused(m, k, if_not_exist) {
        m
    } else {
        m.insert(k, v)
    }
}

/// The contents after setting `ks[i]` to `vs[i]` for each `i` in order.
pub open spec fn after_batch_set<K, V>(m: Map<K, V>, ks: Seq<K>, vs: Seq<V>, if_not_exist: bool) -> Map<K, V>
    decreases ks.len(),
{
    if ks.len() == 0 {
        m
    } else {
        after_set(
            after_batch_set(m, ks.drop_last(), vs.drop_last(), if_not_exist),
            ks.last(),
            vs[ks.len() - 1],
            if_not_exist,
        )
    }
}

/// Whether the `i`-th set of a batch is refused.
pub open spec fn batch_set_refused<K, V>(m: Map<K, V>, ks: Seq<K>, vs: Seq<V>, if_not_exist: bool, i: int) -> bool {
    set_refused(after_batch_set(m, ks.take(i), vs.take(i), if_not_exist), ks[i], if_not_exist)
}

/// The contents after deleting each key of `ks`.
pub open spec fn after_batch_del<K, V>(m: Map<K, V>, ks: Seq<K>) -> Map<K, V>
    decreases ks.len(),
{
    if ks.len() == 0 {
        m
    } else {
        after_batch_del(m, ks.drop_last()).remove(ks.last())
    }
}

/// A synchronous key/value store.
pub trait SyncStore<K: KvItem, V: KvItem> {
    /// The store's internal invariant.
    spec fn inv(&self) -> bool;

    /// The pairs the store holds.
    spec fn contents(&self) -> Map<K::V, V::V>;

    /// Whether closing the store drops its contents.
    spec fn clears_on_close() -> bool;

    /// Sets `key` to `value`; with `if_not_exist`, a present key is left alone and the
    /// set fails with `ConditionFailed`.
    fn set_sync(&mut self, key: &K, value: &V, options: &SetOptions) -> (r: Result<(), KvError>)
        requires
            old(self).inv(),
        ensures
            final(self).inv(),
            final(self).contents() == after_set(old(self).contents(), key@, value@, options.if_not_exist),
            r is Ok <==> !set_refused(old(self).contents(), key@, options.if_not_exist),
            r is Err ==> r matches Err(KvError::ConditionFailed),
    ;

    /// The value of `key`, or `KeyNotFound`.
    fn get_sync(&self, key: &K) -> (r: Result<V, KvError>)
        requires
            self.inv(),
        ensures
            match r {
                Ok(v) => self.contents().contains_key(key@) && v@ == self.contents()[key@],
                Err(e) => !self.contents().contains_key(key@) && e matches KvError::KeyNotFound,
            },
    ;

    /// Deletes `key`; deleting a missing key also succeeds.
    fn del_sync(&mut self, key: &K) -> (r: Result<(), KvError>)
        requires
            old(self).inv(),
        ensures
            final(self).inv(),
            final(self).contents() == old(self).contents().remove(key@),
            r is Ok,
    ;

    /// Sets each key to the value at the same position; one result per key.
    fn batch_set_sync(&mut self, keys: &[K], vals: &[V], options: &SetOptions) -> (r: Result<Vec<Result<(), KvError>>, KvError>)
        requires
            old(self).inv(),
        ensures
            final(self).inv(),
            keys@.len() != vals@.len() ==> {
                &&& r matches Err(KvError::Other(msg)) && msg@ == length_mismatch_message()
                &&& final(self).contents() == old(self).contents()
            },
            keys@.len() == vals@.len() ==> {
                &&& r matches Ok(rs) && rs@.len() == keys@.len() && forall|i: int| 0 <= i < keys@.len() ==> {
                        &&& (#[trigger] rs@[i] is Ok <==> !batch_set_refused(old(self).contents(), views(keys@), views(vals@), options.if_not_exist, i))
                        &&& (rs@[i] is Err ==> rs@[i] matches Err(KvError::ConditionFailed))
                    }
                &&& final(self).contents() == after_batch_set(old(self).contents(), views(keys@), views(vals@), options.if_not_exist)
            },
    ;

    /// The value of each key, or `None` with a `KeyNotFound` error beside it.
    fn batch_get_sync(&self, keys: &[K]) -> (r: Result<(Vec<Option<V>>, Vec<Option<KvError>>), KvError>)
        requires
            self.inv(),
        ensures
            r matches Ok((vs, es)) && vs@.len() == keys@.len() && es@.len() == keys@.len()
                && forall|i: int| 0 <= i < keys@.len() ==> if self.contents().contains_key(#[trigger] keys@[i]@) {
                    &&& vs@[i] matches Some(v) && v@ == self.contents()[keys@[i]@]
                    &&& es@[i] is None
                } else {
                    &&& vs@[i] is None
                    &&& es@[i] matches Some(KvError::KeyNotFound)
                },
    ;

    /// Deletes each key; one successful result per key.
    fn batch_del_sync(&mut self, keys: &[K]) -> (r: Result<Vec<Result<(), KvError>>, KvError>)
        requires
            old(self).inv(),
        ensures
            final(self).inv(),
            final(self).contents() == after_batch_del(old(self).contents(), views(keys@)),
            r matches Ok(rs) && rs@.len() == keys@.len() && forall|i: int| 0 <= i < keys@.len() ==> #[trigger] rs@[i] is Ok,
    ;

    /// Closes the store.
    fn close_sync(&mut self) -> (r: Result<(), KvError>)
        requires
            old(self).inv(),
        ensures
            final(self).inv(),
            r is Ok,
            final(self).contents() == if Self::clears_on_close() {
                Map::<K::V, V::V>::empty()
            } else {
                old(self).contents()
            },
    ;
}


/// Marks a store whose synchronous operations also serve as its `Store` operations.
pub trait IsSyncStore {}

/// Marks a store whose operations are served by a remote service.
pub trait IsAsyncStore {}

/// The general store interface; for a synchronous store each operation is the
/// synchronous one.
pub trait Store<K: KvItem, V: KvItem>: SyncStore<K, V> {
    /// Same as `set_sync`.
    fn set(&mut self, key: &K, value: &V, options: &SetOptions) -> (r: Result<(), KvError>)
        requires
            old(self).inv(),
        ensures
            final(self).inv(),
            final(self).contents() == after_set(old(self).contents(), key@, value@, options.if_not_exist),
            r is Ok <==> !set_refused(old(self).contents(), key@, options.if_not_exist),
            r is Err ==> r matches Err(KvError::ConditionFailed),
    ;

    /// Same as `get_sync`.
    fn get(&self, key: &K) -> (r: Result<V, KvError>)
        requires
            self.inv(),
        ensures
            match r {
                Ok(v) => self.contents().contains_key(key@) && v@ == self.contents()[key@],
                Err(e) => !self.contents().contains_key(key@) && e matches KvError::KeyNotFound,
            },
    ;

    /// Same as `del_sync`.
    fn del(&mut self, key: &K) -> (r: Result<(), KvError>)
        requires
            old(self).inv(),
        ensures
            final(self).inv(),
            final(self).contents() == old(self).contents().remove(key@),
            r is Ok,
    ;

    /// Same as `batch_set_sync`.
    fn batch_set(&mut self, keys: &[K], vals: &[V], options: &SetOptions) -> (r: Result<Vec<Result<(), KvError>>, KvError>)
        requires
            old(self).inv(),
        ensures
            final(self).inv(),
            keys@.len() != vals@.len() ==> {
                &&& r matches Err(KvError::Other(msg)) && msg@ == length_mismatch_message()
                &&& final(self).contents() == old(self).contents()
            },
            keys@.len() == vals@.len() ==> {
                &&& r matches Ok(rs) && rs@.len() == keys@.len() && forall|i: int| 0 <= i < keys@.len() ==> {
                        &&& (#[trigger] rs@[i] is Ok <==> !batch_set_refused(old(self).contents(), views(keys@), views(vals@), options.if_not_exist, i))
                        &&& (rs@[i] is Err ==> rs@[i] matches Err(KvError::ConditionFailed))
                    }
                &&& final(self).contents() == after_batch_set(old(self).contents(), views(keys@), views(vals@), options.if_not_exist)
            },
    ;

    /// Same as `batch_get_sync`.
    fn batch_get(&self, keys: &[K]) -> (r: Result<(Vec<Option<V>>, Vec<Option<KvError>>), KvError>)
        requires
            self.inv(),
        ensures
            r matches Ok((vs, es)) && vs@.len() == keys@.len() && es@.len() == keys@.len()
                && forall|i: int| 0 <= i < keys@.len() ==> if self.contents().contains_key(#[trigger] keys@[i]@) {
                    &&& vs@[i] matches Some(v) && v@ == self.contents()[keys@[i]@]
                    &&& es@[i] is None
                } else {
                    &&& vs@[i] is None
                    &&& es@[i] matches Some(KvError::KeyNotFound)
                },
    ;

    /// Same as `batch_del_sync`.
    fn batch_del(&mut self, keys: &[K]) -> (r: Result<Vec<Result<(), KvError>>, KvError>)
        requires
            old(self).inv(),
        ensures
            final(self).inv(),
            final(self).contents() == after_batch_del(old(self).contents(), views(keys@)),
            r matches Ok(rs) && rs@.len() == keys@.len() && forall|i: int| 0 <= i < keys@.len() ==> #[trigger] rs@[i] is Ok,
    ;

    /// Same as `close_sync`.
    fn close(&mut self) -> (r: Result<(), KvError>)
        requires
            old(self).inv(),
        ensures
            final(self).inv(),
            r is Ok,
            final(self).contents() == if Self::clears_on_close() {
                Map::<K::V, V::V>::empty()
            } else {
                old(self).contents()
            },
    ;
}

impl<K: KvItem, V: KvItem, T: SyncStore<K, V> + IsSyncStore> Store<K, V> for T {
    fn set(&mut self, key: &K, value: &V, options: &SetOptions) -> (r: Result<(), KvError>) {
        self.set_sync(key, value, options)
    }

    fn get(&self, key: &K) -> (r: Result<V, KvError>) {
        self.get_sync(key)
    }

    fn del(&mut self, key: &K) -> (r: Result<(), KvError>) {
        self.del_sync(key)
    }

    fn batch_set(&mut self, keys: &[K], vals: &[V], options: &SetOptions) -> (r: Result<Vec<Result<(), KvError>>, KvError>) {
        self.batch_set_sync(keys, vals, options)
    }

    fn batch_get(&self, keys: &[K]) -> (r: Result<(Vec<Option<V>>, Vec<Option<KvError>>), KvError>) {
        self.batch_get_sync(keys)
    }

    fn batch_del(&mut self, keys: &[K]) -> (r: Result<Vec<Result<(), KvError>>, KvError>) {
        self.batch_del_sync(keys)
    }

    fn close(&mut self) -> (r: Result<(), KvError>) {
        self.close_sync()
    }
}

} // verus!
