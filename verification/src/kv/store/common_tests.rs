//! Scenarios every synchronous store meets, proved from the `SyncStore` contract alone.

use vstd::prelude::*;

use super::api::{after_batch_del, after_batch_set, views, KvError, SetOptions, SyncStore};

verus! {

/// A set is read back; a conditional set on a present key fails and leaves the value.
pub fn test_set_sync<S: SyncStore<String, String>>(store: S)
    requires
        store.inv(),
        store.contents() == Map::<Seq<char>, Seq<char>>::empty(),
{
    let mut store = store;
    let key = "test_key".to_owned();
    let value = "test_value".to_owned();
    let r = store.set_sync(&key, &value, &SetOptions::new());
    assert(r is Ok);
    let retrieved = store.get_sync(&key).unwrap();
    assert(retrieved@ == value@);

    let key2 = "test_key2".to_owned();
    let value1 = "value1".to_owned();
    proof {
        reveal_strlit("test_key");
        reveal_strlit("test_key2");
        assert(key@.len() != key2@.len());
    }
    let r = store.set_sync(&key2, &value1, &SetOptions::new().with_if_not_exist());
    assert(r is Ok);

    let value2 = "value2".to_owned();
    let r = store.set_sync(&key2, &value2, &SetOptions::new().with_if_not_exist());
    assert(r matches Err(KvError::ConditionFailed));

    let retrieved = store.get_sync(&key2).unwrap();
    assert(retrieved@ == value1@);
}

/// A missing key is not found; a set key is found.
pub fn test_get_sync<S: SyncStore<String, String>>(store: S)
    requires
        store.inv(),
        store.contents() == Map::<Seq<char>, Seq<char>>::empty(),
{
    let mut store = store;
    let result = store.get_sync(&"non_existent_key".to_owned());
    assert(result matches Err(KvError::KeyNotFound));

    let key = "test_key".to_owned();
    let value = "test_value".to_owned();
    let r = store.set_sync(&key, &value, &SetOptions::new());
    assert(r is Ok);
    let retrieved = store.get_sync(&key).unwrap();
    assert(retrieved@ == value@);
}

/// A deleted key is gone; deleting a missing key succeeds.
pub fn test_del_sync<S: SyncStore<String, String>>(store: S)
    requires
        store.inv(),
        store.contents() == Map::<Seq<char>, Seq<char>>::empty(),
{
    let mut store = store;
    let key = "test_key".to_owned();
    let value = "test_value".to_owned();
    let r = store.set_sync(&key, &value, &SetOptions::new());
    assert(r is Ok);

    let r = store.del_sync(&key);
    assert(r is Ok);

    let result = store.get_sync(&key);
    assert(result matches Err(KvError::KeyNotFound));

    let result = store.del_sync(&"non_existent_key".to_owned());
    assert(result is Ok);
}

/// The keys "key1", "key2", "key3" differ from one another and from "key4", "key5", "key99".
proof fn lemma_test_keys_differ()
    ensures
        "key1"@ != "key2"@,
        "key1"@ != "key3"@,
        "key2"@ != "key3"@,
        "key4"@ != "key1"@,
        "key4"@ != "key2"@,
        "key4"@ != "key3"@,
        "key99"@ != "key1"@,
        "key99"@ != "key2"@,
        "key99"@ != "key3"@,
{
    reveal_strlit("key1");
    reveal_strlit("key2");
    reveal_strlit("key3");
    reveal_strlit("key4");
    reveal_strlit("key99");
    assert("key1"@[3] != "key2"@[3]);
    assert("key1"@[3] != "key3"@[3]);
    assert("key2"@[3] != "key3"@[3]);
    assert("key4"@[3] != "key1"@[3]);
    assert("key4"@[3] != "key2"@[3]);
    assert("key4"@[3] != "key3"@[3]);
    assert("key99"@.len() != "key1"@.len());
    assert("key99"@.len() != "key2"@.len());
    assert("key99"@.len() != "key3"@.len());
}

/// Setting "key1" -> 1, "key2" -> 2, "key3" -> 3 on a map.
proof fn lemma_three_pairs(base: Map<Seq<char>, i32>, m: Map<Seq<char>, i32>, keys: Seq<String>, values: Seq<i32>)
    requires
        keys.len() == 3,
        keys[0]@ == "key1"@,
        keys[1]@ == "key2"@,
        keys[2]@ == "key3"@,
        values == seq![1i32, 2i32, 3i32],
        m == after_batch_set(base, views(keys), views(values), false),
    ensures
        m == base.insert("key1"@, 1).insert("key2"@, 2).insert("key3"@, 3),
{
    let ks = views(keys);
    let vs = views(values);
    assert(ks.drop_last().drop_last().drop_last().len() == 0);
    reveal_with_fuel(after_batch_set, 4);
    assert(ks.drop_last() =~= seq!["key1"@, "key2"@]);
    assert(ks.drop_last().drop_last() =~= seq!["key1"@]);
    assert(vs.drop_last() =~= seq![1i32, 2i32]);
    assert(vs.drop_last().drop_last() =~= seq![1i32]);
}

/// "key1" -> 1, "key2" -> 2, "key3" -> 3 in a fresh store.
fn set_three<S: SyncStore<String, i32>>(store: &mut S) -> (keys: Vec<String>)
    requires
        old(store).inv(),
        old(store).contents() == Map::<Seq<char>, i32>::empty(),
    ensures
        final(store).inv(),
        keys@.len() == 3,
        keys@[0]@ == "key1"@,
        keys@[1]@ == "key2"@,
        keys@[2]@ == "key3"@,
        final(store).contents() == Map::<Seq<char>, i32>::empty().insert("key1"@, 1).insert("key2"@, 2).insert("key3"@, 3),
{
    let keys = vec!["key1".to_owned(), "key2".to_owned(), "key3".to_owned()];
    let values: Vec<i32> = vec![1, 2, 3];
    let r = store.batch_set_sync(keys.as_slice(), values.as_slice(), &SetOptions::new());
    proof { lemma_three_pairs(Map::<Seq<char>, i32>::empty(), store.contents(), keys@, values@); }
    keys
}

/// A batch set writes every pair; a conditional batch set skips present keys;
/// keys and values of different number are refused. The store holds none of the
/// keys "key1" to "key4".
pub fn test_batch_set_sync<S: SyncStore<String, i32>>(store: S)
    requires
        store.inv(),
        !store.contents().dom().contains("key1"@),
        !store.contents().dom().contains("key2"@),
        !store.contents().dom().contains("key3"@),
        !store.contents().dom().contains("key4"@),
{
    let mut store = store;
    let ghost base = store.contents();
    let keys = vec!["key1".to_owned(), "key2".to_owned(), "key3".to_owned()];
    let values: Vec<i32> = vec![1, 2, 3];
    let results = store.batch_set_sync(keys.as_slice(), values.as_slice(), &SetOptions::new()).unwrap();
    assert(results@.len() == 3);
    assert(forall|i: int| 0 <= i < 3 ==> #[trigger] results@[i] is Ok);
    proof { lemma_three_pairs(base, store.contents(), keys@, values@); }

    proof { lemma_test_keys_differ(); }
    let new_keys = vec!["key1".to_owned(), "key4".to_owned()];
    let new_values: Vec<i32> = vec![10, 40];
    let ghost before = store.contents();
    let results = store.batch_set_sync(new_keys.as_slice(), new_values.as_slice(), &SetOptions::new().with_if_not_exist()).unwrap();
    proof {
        let ks = views(new_keys@);
        let vs = views(new_values@);
        reveal_with_fuel(after_batch_set, 3);
        assert(ks.take(0) =~= Seq::<Seq<char>>::empty());
        assert(ks.take(1) =~= seq!["key1"@]);
        assert(vs.take(1) =~= seq![10i32]);
        assert(ks.take(1).drop_last() =~= Seq::<Seq<char>>::empty());
    }
    assert(results@[0] matches Err(KvError::ConditionFailed));
    assert(results@[1] is Ok);

    let value = store.get_sync(&"key1".to_owned()).unwrap();
    assert(value == 1);

    let invalid_keys = vec!["key5".to_owned()];
    let invalid_values: Vec<i32> = vec![5, 6];
    let result = store.batch_set_sync(invalid_keys.as_slice(), invalid_values.as_slice(), &SetOptions::new());
    assert(result matches Err(KvError::Other(_)));
}

/// A batch get finds the set keys and reports each missing one.
pub fn test_batch_get_sync<S: SyncStore<String, i32>>(store: S)
    requires
        store.inv(),
        store.contents() == Map::<Seq<char>, i32>::empty(),
{
    let mut store = store;
    let keys = set_three(&mut store);
    proof { lemma_test_keys_differ(); }

    let (retrieved_values, errors) = store.batch_get_sync(keys.as_slice()).unwrap();
    assert(retrieved_values@.len() == 3);
    assert(retrieved_values@[0] == Some(1i32));
    assert(retrieved_values@[1] == Some(2i32));
    assert(retrieved_values@[2] == Some(3i32));
    assert(forall|i: int| 0 <= i < 3 ==> #[trigger] errors@[i] is None);

    let missing_keys = vec!["key1".to_owned(), "key99".to_owned()];
    let (values, errors) = store.batch_get_sync(missing_keys.as_slice()).unwrap();
    assert(values@[0] == Some(1i32));
    assert(values@[1] is None);
    assert(errors@[0] is None);
    assert(errors@[1] matches Some(KvError::KeyNotFound));
}

/// A batch delete removes every key; deleting a missing key succeeds.
pub fn test_batch_del_sync<S: SyncStore<String, i32>>(store: S)
    requires
        store.inv(),
        store.contents() == Map::<Seq<char>, i32>::empty(),
{
    let mut store = store;
    let keys = set_three(&mut store);

    let del_results = store.batch_del_sync(keys.as_slice()).unwrap();
    assert(del_results@.len() == 3);
    assert(forall|i: int| 0 <= i < 3 ==> #[trigger] del_results@[i] is Ok);
    proof {
        let ks = views(keys@);
        reveal_with_fuel(after_batch_del, 4);
        assert(ks.drop_last().drop_last().drop_last().len() == 0);
        assert(ks.drop_last() =~= seq!["key1"@, "key2"@]);
        assert(ks.drop_last().drop_last() =~= seq!["key1"@]);
        assert(store.contents() =~= Map::<Seq<char>, i32>::empty());
    }

    let (empty_values, not_found_errors) = store.batch_get_sync(keys.as_slice()).unwrap();
    assert(forall|i: int| 0 <= i < 3 ==> #[trigger] empty_values@[i] is None);
    assert(forall|i: int| 0 <= i < 3 ==> #[trigger] not_found_errors@[i] matches Some(KvError::KeyNotFound));

    let missing_keys = vec!["key99".to_owned()];
    let results = store.batch_del_sync(missing_keys.as_slice()).unwrap();
    assert(results@[0] is Ok);
}

/// Closing a store that keeps its contents leaves every pair readable.
pub fn test_close_sync<S: SyncStore<String, i32>>(store: S)
    requires
        store.inv(),
        store.contents() == Map::<Seq<char>, i32>::empty(),
        !S::clears_on_close(),
{
    let mut store = store;
    proof { lemma_test_keys_differ(); }
    let r = store.set_sync(&"key1".to_owned(), &1, &SetOptions::new());
    assert(r is Ok);
    let r = store.set_sync(&"key2".to_owned(), &2, &SetOptions::new());
    assert(r is Ok);

    let r = store.close_sync();
    assert(r is Ok);

    let result = store.get_sync(&"key1".to_owned());
    assert(result matches Ok(1i32));
    let result = store.get_sync(&"key2".to_owned());
    assert(result matches Ok(2i32));
}

} // verus!
