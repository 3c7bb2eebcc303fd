use std::cell::RefCell;
use std::rc::Rc;

use ldk_node::data_store::cache::LruCache;
use ldk_node::data_store::{
    finish_contains_key, finish_page, list_error, read_missing, CachePolicy, DataStore,
    DataStorePage, DataStoreUpdateResult, KeepAllEntries, KeepLeastRecentlyUsed, Lookup,
    ObjectRead, Presence, Removal, StorableObject, StorableObjectId, StorableObjectUpdate,
    UpdatableObject, UpdateStep,
};
use ldk_node::error::{Error, IoErrorKind};
use ldk_node::vec_map::MapKey;

const IN_MEMORY_PAGE_SIZE: usize = 50;

#[derive(Clone, Copy, Debug, Eq, Hash, PartialEq)]
struct TestObjectId {
    id: [u8; 4],
}

impl MapKey for TestObjectId {
    fn key_eq(&self, other: &Self) -> bool {
        self == other
    }

    fn key_copy(&self) -> Self {
        *self
    }
}

impl StorableObjectId for TestObjectId {
    fn spec_encode(&self) -> vstd::seq::Seq<char> {
        unreachable!()
    }

    fn spec_decode(_s: vstd::seq::Seq<char>) -> Option<Self> {
        unreachable!()
    }

    fn decode_undoes_encode(&self) {}

    fn encode_to_hex_str(&self) -> String {
        ldk_node::hex::to_string(&self.id)
    }

    fn decode_from_hex_str(s: &str) -> Option<Self> {
        ldk_node::hex::to_vec(s)?.try_into().ok().map(|id| Self { id })
    }
}

struct TestObjectUpdate {
    id: TestObjectId,
    data: [u8; 3],
    extra: Option<u64>,
}

impl StorableObjectUpdate<TestObject> for TestObjectUpdate {
    fn spec_update_id(&self) -> TestObjectId {
        unreachable!()
    }

    fn id(&self) -> TestObjectId {
        self.id
    }
}

#[derive(Clone, Copy, Debug, Eq, Hash, PartialEq)]
struct TestObject {
    id: TestObjectId,
    data: [u8; 3],
    extra: Option<u64>,
}

impl TestObject {
    fn new(id: TestObjectId, data: [u8; 3]) -> Self {
        Self { id, data, extra: None }
    }

    fn encode(&self) -> Vec<u8> {
        let mut bytes = self.id.id.to_vec();
        bytes.extend_from_slice(&self.data);
        if let Some(extra) = self.extra {
            bytes.extend_from_slice(&extra.to_be_bytes());
        }
        bytes
    }

    fn decode(bytes: &[u8]) -> Option<Self> {
        if bytes.len() != 7 && bytes.len() != 15 {
            return None;
        }
        let mut object = TestObject::new(
            TestObjectId { id: bytes[..4].try_into().unwrap() },
            bytes[4..7].try_into().unwrap(),
        );
        if bytes.len() == 15 {
            object.extra = Some(u64::from_be_bytes(bytes[7..].try_into().unwrap()));
        }
        Some(object)
    }
}

impl StorableObject for TestObject {
    type Id = TestObjectId;

    fn spec_id(&self) -> TestObjectId {
        unreachable!()
    }

    fn id(&self) -> TestObjectId {
        self.id
    }

    fn duplicate(&self) -> Self {
        *self
    }
}

impl UpdatableObject for TestObject {
    type Update = TestObjectUpdate;

    fn spec_update(&self, _update: TestObjectUpdate) -> (Self, bool) {
        unreachable!()
    }

    fn spec_to_update(&self) -> TestObjectUpdate {
        unreachable!()
    }

    fn update_keeps_id(&self, _update: TestObjectUpdate) {}

    fn update(&mut self, update: TestObjectUpdate) -> bool {
        let mut updated = false;
        if self.data != update.data {
            self.data = update.data;
            updated = true;
        }
        if let Some(extra) = update.extra {
            if self.extra != Some(extra) {
                self.extra = Some(extra);
                updated = true;
            }
        }
        updated
    }

    fn to_update(&self) -> TestObjectUpdate {
        TestObjectUpdate { id: self.id, data: self.data, extra: self.extra }
    }
}

fn test_id(id: u8) -> TestObjectId {
    TestObjectId { id: [id; 4] }
}

/// A key-value store in memory that lists its keys from the newest to the oldest.
#[derive(Default)]
struct Kv {
    /// Each with the number it was created under.
    entries: Vec<(u64, String, Vec<u8>)>,
    created: u64,
    reads: usize,
    writes: usize,
    removes: usize,
    lists: usize,
    fail_reads: bool,
    fail_writes: bool,
    phantom_key: Option<String>,
}

impl Kv {
    fn read(&mut self, key: &str) -> Result<Vec<u8>, IoErrorKind> {
        self.reads += 1;
        if self.fail_reads {
            return Err(IoErrorKind::Other);
        }
        let found = self.entries.iter().find(|(_, k, _)| k == key);
        found.map(|(_, _, v)| v.clone()).ok_or(IoErrorKind::NotFound)
    }

    fn write(&mut self, key: &str, value: Vec<u8>) -> Result<(), IoErrorKind> {
        self.writes += 1;
        if self.fail_writes {
            return Err(IoErrorKind::Other);
        }
        match self.entries.iter_mut().find(|(_, k, _)| k == key) {
            Some(entry) => entry.2 = value,
            None => {
                self.created += 1;
                self.entries.push((self.created, key.to_string(), value));
            }
        }
        Ok(())
    }

    fn remove(&mut self, key: &str) -> Result<(), IoErrorKind> {
        self.removes += 1;
        if self.fail_writes {
            return Err(IoErrorKind::Other);
        }
        self.entries.retain(|(_, k, _)| k != key);
        Ok(())
    }

    fn list(
        &mut self,
        token: Option<String>,
    ) -> Result<(Vec<String>, Option<String>), IoErrorKind> {
        self.lists += 1;
        if self.fail_reads {
            return Err(IoErrorKind::Other);
        }
        let before: u64 = match token {
            Some(token) => token.parse().map_err(|_| IoErrorKind::InvalidInput)?,
            None => u64::MAX,
        };
        let mut older: Vec<(u64, String)> = self
            .entries
            .iter()
            .filter(|(n, _, _)| *n < before)
            .map(|(n, k, _)| (*n, k.clone()))
            .collect();
        older.sort_by_key(|(n, _)| std::cmp::Reverse(*n));
        let more = older.len() > IN_MEMORY_PAGE_SIZE;
        older.truncate(IN_MEMORY_PAGE_SIZE);
        let next = if more { older.last().map(|(n, _)| n.to_string()) } else { None };
        let mut keys: Vec<String> = older.into_iter().map(|(_, k)| k).collect();
        if let Some(phantom) = &self.phantom_key {
            keys.insert(0, phantom.clone());
        }
        Ok((keys, next))
    }
}

fn object_read(read: Result<Vec<u8>, IoErrorKind>) -> ObjectRead<TestObject> {
    match read {
        Ok(bytes) => match TestObject::decode(&bytes) {
            Some(object) => ObjectRead::Decoded(object),
            None => ObjectRead::Undecodable,
        },
        Err(kind) => ObjectRead::Failed(kind),
    }
}

/// Runs the steps of a data store against a key-value store.
struct TestStore {
    inner: DataStore<TestObject>,
    kv: Rc<RefCell<Kv>>,
}

impl TestStore {
    fn get(&mut self, id: &TestObjectId) -> Result<Option<TestObject>, Error> {
        match self.inner.lookup(id) {
            Lookup::Cached(object) => Ok(Some(object)),
            Lookup::Absent => Ok(None),
            Lookup::Read(key) => {
                let read = object_read(self.kv.borrow_mut().read(&key));
                self.inner.finish_lookup(id, read)
            }
        }
    }

    fn write(&self, object: &TestObject) -> Result<(), IoErrorKind> {
        let key = DataStore::store_key(object);
        self.kv.borrow_mut().write(&key, object.encode())
    }

    fn insert(&mut self, object: TestObject) -> Result<(), Error> {
        let written = self.write(&object);
        self.inner.finish_write(object, written)
    }

    fn insert_or_update(&mut self, object: TestObject) -> Result<bool, Error> {
        let id = object.id;
        let existing = self.get(&id)?;
        let merged = DataStore::merge(object, existing);
        let written = match &merged {
            Some(object) => self.write(object),
            None => Ok(()),
        };
        self.inner.finish_merge(&id, merged, written)
    }

    fn update(&mut self, update: TestObjectUpdate) -> Result<DataStoreUpdateResult, Error> {
        let id = update.id;
        let existing = self.get(&id)?;
        let step = DataStore::apply_update(existing, update);
        let written = match &step {
            UpdateStep::Write(object) => self.write(object),
            _ => Ok(()),
        };
        self.inner.finish_update(&id, step, written)
    }

    fn mutate<F: FnOnce(Option<TestObject>) -> Option<TestObject>>(
        &mut self,
        id: &TestObjectId,
        f: F,
    ) -> Result<Option<TestObject>, Error> {
        let new_object = f(self.get(id)?);
        let written = match &new_object {
            Some(object) => self.write(object),
            None => Ok(()),
        };
        self.inner.finish_mutate(new_object, written)
    }

    fn try_mutate<F: FnOnce(Option<TestObject>) -> Result<Option<TestObject>, Error>>(
        &mut self,
        id: &TestObjectId,
        f: F,
    ) -> Result<Option<TestObject>, Error> {
        let new_object = f(self.get(id)?)?;
        self.mutate(id, |_existing| new_object)
    }

    fn remove(&mut self, id: &TestObjectId) -> Result<(), Error> {
        match self.inner.begin_remove(id) {
            Removal::KnownAbsent => Ok(()),
            Removal::RemoveKey(key) => {
                let removed = self.kv.borrow_mut().remove(&key);
                self.inner.finish_remove(id, removed)
            }
        }
    }

    fn contains_key(&mut self, id: &TestObjectId) -> Result<bool, Error> {
        match self.inner.begin_contains_key(id) {
            Presence::Known(found) => Ok(found),
            Presence::Read(key) => {
                let read = self.kv.borrow_mut().read(&key).map(|_| ());
                finish_contains_key(read)
            }
        }
    }

    fn list_page(&mut self, token: Option<String>) -> Result<DataStorePage<TestObject>, Error> {
        let (keys, next) = self.kv.borrow_mut().list(token).map_err(list_error)?;
        let (mut objects, missing) = self.inner.begin_page(&keys);
        let reads: Vec<(usize, ObjectRead<TestObject>)> = missing
            .iter()
            .map(|(slot, key)| (*slot, object_read(self.kv.borrow_mut().read(key))))
            .collect();
        read_missing(&mut objects, &reads)?;
        Ok(finish_page(&objects, next))
    }

    fn list_filter<F: Fn(&TestObject) -> bool>(&self, f: F) -> Vec<TestObject> {
        self.inner.list_filter(f)
    }
}

fn new_data_store<P: CachePolicy>(
    kv: Rc<RefCell<Kv>>,
    cache_policy: P,
    objects: Vec<TestObject>,
) -> TestStore {
    let inner = DataStore::new(
        objects,
        cache_policy,
        "datastore_test_primary".to_string(),
        "datastore_test_secondary".to_string(),
    );
    TestStore { inner, kv }
}

fn in_memory_store() -> Rc<RefCell<Kv>> {
    Rc::new(RefCell::new(Kv::default()))
}

fn failing_store() -> Rc<RefCell<Kv>> {
    Rc::new(RefCell::new(Kv { fail_reads: true, fail_writes: true, ..Kv::default() }))
}

fn keep_lru(capacity: usize) -> KeepLeastRecentlyUsed {
    KeepLeastRecentlyUsed::new(capacity)
}

fn new_failing_data_store(objects: Vec<TestObject>) -> TestStore {
    new_data_store(failing_store(), KeepAllEntries, objects)
}

#[test]
fn data_is_persisted() {
    let kv = in_memory_store();
    let mut data_store = new_data_store(Rc::clone(&kv), KeepAllEntries, Vec::new());
    assert_eq!(
        data_store.inner.namespace_names(),
        ("datastore_test_primary", "datastore_test_secondary")
    );

    let id = TestObjectId { id: [42u8; 4] };
    assert!(data_store.get(&id).unwrap().is_none());

    let store_key = id.encode_to_hex_str();

    // Check we start empty.
    assert!(kv.borrow_mut().read(&store_key).is_err());

    // Check we successfully store an object.
    let object = TestObject::new(id, [23u8; 3]);
    assert_eq!(Ok(()), data_store.insert(object.clone()));
    assert_eq!(Some(object), data_store.get(&id).unwrap());
    assert!(kv.borrow_mut().read(&store_key).is_ok());

    // Test re-insertion overwrites the object.
    let mut override_object = object.clone();
    override_object.data = [24u8; 3];
    assert_eq!(Ok(()), data_store.insert(override_object));
    assert_eq!(Some(override_object), data_store.get(&id).unwrap());

    // Check update returns `Updated`
    let update = TestObjectUpdate { id, data: [25u8; 3], extra: None };
    assert_eq!(Ok(DataStoreUpdateResult::Updated), data_store.update(update));
    assert_eq!(data_store.get(&id).unwrap().unwrap().data, [25u8; 3]);

    // Check no-op update yields `Unchanged`
    let update = TestObjectUpdate { id, data: [25u8; 3], extra: None };
    assert_eq!(Ok(DataStoreUpdateResult::Unchanged), data_store.update(update));

    // Check bogus update yields `NotFound`
    let bogus_id = TestObjectId { id: [84u8; 4] };
    let update = TestObjectUpdate { id: bogus_id, data: [12u8; 3], extra: None };
    assert_eq!(Ok(DataStoreUpdateResult::NotFound), data_store.update(update));

    // Check `insert_or_update` inserts unknown objects
    let iou_id = TestObjectId { id: [55u8; 4] };
    let iou_object = TestObject::new(iou_id, [34u8; 3]);
    assert_eq!(Ok(true), data_store.insert_or_update(iou_object.clone()));

    // Check `insert_or_update` doesn't update the same object
    assert_eq!(Ok(false), data_store.insert_or_update(iou_object.clone()));

    // Check `insert_or_update` updates if object changed
    let mut new_iou_object = iou_object;
    new_iou_object.data[0] += 1;
    assert_eq!(Ok(true), data_store.insert_or_update(new_iou_object));
}

#[test]
fn mutate_inserts_when_absent() {
    let kv = in_memory_store();
    let mut data_store = new_data_store(Rc::clone(&kv), KeepAllEntries, Vec::new());

    let id = TestObjectId { id: [42u8; 4] };
    let object = TestObject::new(id, [23u8; 3]);
    let result = data_store.mutate(&id, |existing| {
        assert!(existing.is_none());
        Some(object)
    });
    assert_eq!(Ok(Some(object)), result);

    assert_eq!(Some(object), data_store.get(&id).unwrap());
    assert!(kv.borrow_mut().read(&id.encode_to_hex_str()).is_ok());
}

#[test]
fn mutate_transforms_existing_entry() {
    let id = TestObjectId { id: [42u8; 4] };
    let existing_object = TestObject::new(id, [23u8; 3]);
    let mut data_store =
        new_data_store(in_memory_store(), KeepAllEntries, vec![existing_object]);

    let result = data_store.mutate(&id, |existing| {
        let mut new_object = existing.unwrap();
        new_object.data[0] += 1;
        Some(new_object)
    });
    let expected = TestObject::new(id, [24u8, 23u8, 23u8]);
    assert_eq!(Ok(Some(expected)), result);
    assert_eq!(Some(expected), data_store.get(&id).unwrap());
}

#[test]
fn mutate_async_awaits_fallible_reads() {
    let kv = in_memory_store();
    let id = TestObjectId { id: [42u8; 4] };
    let other_id = TestObjectId { id: [43u8; 4] };
    let existing_object = TestObject::new(id, [23u8; 3]);
    let other_object = TestObject::new(other_id, [24u8; 3]);
    let mut data_store = new_data_store(Rc::clone(&kv), KeepAllEntries, vec![existing_object]);
    let mut other_store = new_data_store(kv, KeepAllEntries, vec![other_object]);

    let result = data_store.try_mutate(&id, |existing| {
        let mut updated = existing.unwrap();
        updated.data = other_store.get(&other_id)?.unwrap().data;
        Ok(Some(updated))
    });
    let expected = TestObject::new(id, [24u8; 3]);
    assert_eq!(Ok(Some(expected)), result);
    assert_eq!(Some(expected), data_store.get(&id).unwrap());

    let mut failing_store = new_data_store(failing_store(), keep_lru(1), Vec::new());
    let result = data_store.try_mutate(&id, |_existing| failing_store.get(&other_id));
    assert_eq!(Err(Error::PersistenceFailed), result);
    assert_eq!(Some(expected), data_store.get(&id).unwrap());
}

#[test]
fn mutate_persists_nothing_when_closure_declines() {
    let id = TestObjectId { id: [42u8; 4] };
    let existing_object = TestObject::new(id, [23u8; 3]);
    let mut data_store = new_failing_data_store(vec![existing_object]);

    let result = data_store.mutate(&id, |existing| {
        assert_eq!(Some(existing_object), existing);
        None
    });
    assert_eq!(Ok(None), result);
    assert_eq!(Some(existing_object), data_store.get(&id).unwrap());
}

#[test]
fn mutate_does_not_mutate_memory_if_persist_fails() {
    let existing_id = TestObjectId { id: [42u8; 4] };
    let existing_object = TestObject::new(existing_id, [23u8; 3]);
    let mut data_store = new_failing_data_store(vec![existing_object]);

    let changed = TestObject::new(existing_id, [24u8; 3]);
    assert_eq!(
        Err(Error::PersistenceFailed),
        data_store.mutate(&existing_id, |_| Some(changed))
    );
    assert_eq!(Some(existing_object), data_store.get(&existing_id).unwrap());

    let new_id = TestObjectId { id: [55u8; 4] };
    let new_object = TestObject::new(new_id, [34u8; 3]);
    assert_eq!(Err(Error::PersistenceFailed), data_store.mutate(&new_id, |_| Some(new_object)));
    assert!(data_store.get(&new_id).unwrap().is_none());
}

#[test]
fn insert_or_update_does_not_mutate_memory_if_persist_fails() {
    let existing_id = TestObjectId { id: [42u8; 4] };
    let existing_object = TestObject::new(existing_id, [23u8; 3]);
    let mut data_store = new_failing_data_store(vec![existing_object]);

    let updated_object = TestObject::new(existing_id, [24u8; 3]);
    assert_eq!(Err(Error::PersistenceFailed), data_store.insert_or_update(updated_object));
    assert_eq!(Some(existing_object), data_store.get(&existing_id).unwrap());

    let new_id = TestObjectId { id: [55u8; 4] };
    let new_object = TestObject::new(new_id, [34u8; 3]);
    assert_eq!(Err(Error::PersistenceFailed), data_store.insert_or_update(new_object));
    assert!(data_store.get(&new_id).unwrap().is_none());
}

#[test]
fn insert_does_not_mutate_memory_if_persist_fails() {
    let id = TestObjectId { id: [42u8; 4] };
    let object = TestObject::new(id, [23u8; 3]);
    let mut data_store = new_failing_data_store(vec![]);

    assert_eq!(Err(Error::PersistenceFailed), data_store.insert(object));
    assert!(data_store.get(&id).unwrap().is_none());
}

#[test]
fn update_does_not_mutate_memory_if_persist_fails() {
    let id = TestObjectId { id: [42u8; 4] };
    let object = TestObject::new(id, [23u8; 3]);
    let mut data_store = new_failing_data_store(vec![object]);

    let update = TestObjectUpdate { id, data: [24u8; 3], extra: None };
    assert_eq!(Err(Error::PersistenceFailed), data_store.update(update));
    assert_eq!(Some(object), data_store.get(&id).unwrap());
}

#[test]
fn remove_does_not_mutate_memory_if_persist_fails() {
    let id = TestObjectId { id: [42u8; 4] };
    let object = TestObject::new(id, [23u8; 3]);
    let mut data_store = new_failing_data_store(vec![object]);

    assert_eq!(Err(Error::PersistenceFailed), data_store.remove(&id));
    assert_eq!(Some(object), data_store.get(&id).unwrap());
}

fn new_lru_store_with_objects(
    capacity: usize,
    num_objects: u8,
) -> (TestStore, Rc<RefCell<Kv>>, Vec<TestObjectId>) {
    let kv = in_memory_store();
    let mut data_store = new_data_store(Rc::clone(&kv), keep_lru(capacity), Vec::new());
    let mut ids = Vec::new();
    for i in 0..num_objects {
        let id = test_id(i);
        data_store.insert(TestObject::new(id, [i; 3])).unwrap();
        ids.push(id);
    }
    (data_store, kv, ids)
}

#[test]
fn keep_all_never_reads_from_the_store() {
    let kv = in_memory_store();
    let mut data_store = new_data_store(Rc::clone(&kv), KeepAllEntries, Vec::new());

    let id = test_id(1);
    let missing_id = test_id(2);
    let object = TestObject::new(id, [23u8; 3]);
    assert_eq!(Ok(()), data_store.insert(object));

    assert_eq!(Some(object), data_store.get(&id).unwrap());
    assert_eq!(None, data_store.get(&missing_id).unwrap());
    assert!(data_store.contains_key(&id).unwrap());
    assert!(!data_store.contains_key(&missing_id).unwrap());
    assert_eq!(1, data_store.list_filter(|_| true).len());
    let no_op = TestObjectUpdate { id, data: [23u8; 3], extra: None };
    assert_eq!(Ok(DataStoreUpdateResult::Unchanged), data_store.update(no_op));

    assert_eq!(0, kv.borrow().reads);
    assert_eq!(0, kv.borrow().lists);
}

#[test]
fn lru_evicts_least_recently_used() {
    let (data_store, _kv, ids) = new_lru_store_with_objects(2, 3);

    assert_eq!(2, data_store.inner.cached_len());
    assert!(!data_store.inner.is_cached(&ids[0]));
    assert!(data_store.inner.is_cached(&ids[1]));
    assert!(data_store.inner.is_cached(&ids[2]));
}

#[test]
fn lru_get_marks_an_entry_as_recently_used() {
    let (mut data_store, _kv, ids) = new_lru_store_with_objects(2, 2);

    assert!(data_store.get(&ids[0]).unwrap().is_some());

    // With `ids[0]` freshly used, inserting a third object must evict `ids[1]` instead.
    let new_id = test_id(9);
    data_store.insert(TestObject::new(new_id, [9u8; 3])).unwrap();
    assert!(data_store.inner.is_cached(&ids[0]));
    assert!(!data_store.inner.is_cached(&ids[1]));
    assert!(data_store.inner.is_cached(&new_id));
}

#[test]
fn lru_get_reads_through_and_caches() {
    let (mut data_store, _kv, ids) = new_lru_store_with_objects(1, 2);
    let evicted_id = ids[0];
    assert!(!data_store.inner.is_cached(&evicted_id));

    let object = data_store.get(&evicted_id).unwrap();
    assert_eq!(Some(TestObject::new(evicted_id, [0u8; 3])), object);
    assert!(data_store.inner.is_cached(&evicted_id));
    assert_eq!(1, data_store.inner.cached_len());
}

#[test]
fn lru_contains_key_reads_through() {
    let (mut data_store, _kv, ids) = new_lru_store_with_objects(1, 2);
    let evicted_id = ids[0];
    assert!(!data_store.inner.is_cached(&evicted_id));

    assert!(data_store.contains_key(&evicted_id).unwrap());
    assert!(!data_store.contains_key(&test_id(99)).unwrap());
    // A mere existence probe must not displace the working set.
    assert!(!data_store.inner.is_cached(&evicted_id));
}

#[test]
fn lru_update_reads_through_evicted_entry() {
    let (mut data_store, _kv, ids) = new_lru_store_with_objects(1, 2);
    let evicted_id = ids[0];
    assert!(!data_store.inner.is_cached(&evicted_id));

    let update = TestObjectUpdate { id: evicted_id, data: [25u8; 3], extra: None };
    assert_eq!(Ok(DataStoreUpdateResult::Updated), data_store.update(update));
    assert_eq!([25u8; 3], data_store.get(&evicted_id).unwrap().unwrap().data);
}

#[test]
fn lru_insert_or_update_does_not_clobber_evicted_entry() {
    let mut data_store = new_data_store(in_memory_store(), keep_lru(1), Vec::new());

    let id = test_id(1);
    let stored = TestObject { id, data: [23u8; 3], extra: Some(42) };
    data_store.insert(stored).unwrap();
    data_store.insert(TestObject::new(test_id(2), [24u8; 3])).unwrap();
    assert!(!data_store.inner.is_cached(&id));

    let incoming = TestObject { id, data: [25u8; 3], extra: None };
    assert_eq!(Ok(true), data_store.insert_or_update(incoming));

    let merged = data_store.get(&id).unwrap().unwrap();
    assert_eq!([25u8; 3], merged.data);
    assert_eq!(Some(42), merged.extra);
}

#[test]
fn lru_insert_writes_without_reading() {
    let kv = in_memory_store();
    let mut data_store = new_data_store(Rc::clone(&kv), keep_lru(1), Vec::new());

    data_store.insert(TestObject::new(test_id(1), [1u8; 3])).unwrap();

    assert_eq!(0, kv.borrow().reads, "insert must not read from the store");
    assert_eq!(1, kv.borrow().writes, "insert must write exactly once");
}

#[test]
fn lru_remove_removes_evicted_entry() {
    let (mut data_store, kv, ids) = new_lru_store_with_objects(1, 2);
    let evicted_id = ids[0];
    assert!(!data_store.inner.is_cached(&evicted_id));

    data_store.remove(&evicted_id).unwrap();

    assert_eq!(None, data_store.get(&evicted_id).unwrap());
    assert!(kv.borrow_mut().read(&evicted_id.encode_to_hex_str()).is_err());
}

#[test]
fn lru_remove_removes_without_reading() {
    let kv = in_memory_store();
    let mut data_store = new_data_store(Rc::clone(&kv), keep_lru(1), Vec::new());
    let evicted_id = test_id(1);
    data_store.insert(TestObject::new(evicted_id, [1u8; 3])).unwrap();
    data_store.insert(TestObject::new(test_id(2), [2u8; 3])).unwrap();
    assert!(!data_store.inner.is_cached(&evicted_id));

    data_store.remove(&evicted_id).unwrap();

    assert_eq!(0, kv.borrow().reads, "remove must not read from the store");
    assert_eq!(1, kv.borrow().removes, "remove must execute exactly once");
    assert!(kv.borrow_mut().read(&evicted_id.encode_to_hex_str()).is_err());
}

fn seeded(kv: &Rc<RefCell<Kv>>) -> Vec<TestObject> {
    let mut seed_store = new_data_store(Rc::clone(kv), KeepAllEntries, Vec::new());
    let mut objects = Vec::new();
    for i in 0..5u8 {
        let object = TestObject::new(test_id(i), [i; 3]);
        seed_store.insert(object).unwrap();
        objects.push(object);
    }
    objects
}

#[test]
fn lru_seeding_treats_the_last_object_as_most_recently_used() {
    let kv = in_memory_store();
    let objects = seeded(&kv);

    let data_store = new_data_store(kv, keep_lru(2), objects.clone());

    assert_eq!(2, data_store.inner.cached_len());
    assert!(data_store.inner.is_cached(&objects[3].id));
    assert!(data_store.inner.is_cached(&objects[4].id));
    for object in objects.iter().take(3) {
        assert!(!data_store.inner.is_cached(&object.id));
    }
}

#[test]
fn lru_seeding_trims_to_capacity() {
    let kv = in_memory_store();
    let objects = seeded(&kv);

    let mut data_store = new_data_store(kv, keep_lru(2), objects.clone());
    assert_eq!(2, data_store.inner.cached_len());

    // Everything the cache dropped is still reachable through the store.
    for object in objects {
        assert_eq!(Some(object), data_store.get(&object.id()).unwrap());
    }
}

#[test]
fn lru_reports_read_failures_rather_than_absence() {
    let mut data_store = new_data_store(failing_store(), keep_lru(1), Vec::new());

    let id = test_id(1);
    assert_eq!(Err(Error::PersistenceFailed), data_store.get(&id));
    assert_eq!(Err(Error::PersistenceFailed), data_store.contains_key(&id));
    assert_eq!(Err(Error::PersistenceFailed), data_store.remove(&id));
    assert_eq!(
        Err(Error::PersistenceFailed),
        data_store.insert_or_update(TestObject::new(id, [1u8; 3]))
    );
    let update = TestObjectUpdate { id, data: [1u8; 3], extra: None };
    assert_eq!(Err(Error::PersistenceFailed), data_store.update(update));

    // By contrast, a store that simply doesn't hold the key must report exactly that.
    let mut working_store = new_data_store(in_memory_store(), keep_lru(1), Vec::new());
    assert_eq!(Ok(None), working_store.get(&id));
    assert_eq!(Ok(false), working_store.contains_key(&id));
    assert_eq!(Ok(()), working_store.remove(&id));
    let update = TestObjectUpdate { id, data: [1u8; 3], extra: None };
    assert_eq!(Ok(DataStoreUpdateResult::NotFound), working_store.update(update));
}

#[test]
fn lru_does_not_mutate_memory_if_persist_fails() {
    let kv = in_memory_store();
    let mut data_store = new_data_store(Rc::clone(&kv), keep_lru(1), Vec::new());

    let id = test_id(1);
    let stored = TestObject::new(id, [23u8; 3]);
    data_store.insert(stored).unwrap();
    // Evict it, so every operation below has to read through first.
    data_store.insert(TestObject::new(test_id(2), [24u8; 3])).unwrap();
    assert!(!data_store.inner.is_cached(&id));

    kv.borrow_mut().fail_writes = true;

    assert_eq!(
        Err(Error::PersistenceFailed),
        data_store.insert_or_update(TestObject::new(id, [25u8; 3]))
    );
    let update = TestObjectUpdate { id, data: [26u8; 3], extra: None };
    assert_eq!(Err(Error::PersistenceFailed), data_store.update(update));
    assert_eq!(
        Err(Error::PersistenceFailed),
        data_store.insert(TestObject::new(id, [27u8; 3]))
    );
    assert_eq!(Err(Error::PersistenceFailed), data_store.remove(&id));

    kv.borrow_mut().fail_writes = false;
    assert_eq!(Some(stored), data_store.get(&id).unwrap());
}

#[test]
fn lru_cache_keeps_its_indices_in_sync() {
    let mut lru: LruCache<TestObject> = LruCache::new(2);
    let first = test_id(1);
    let second = test_id(2);
    let third = test_id(3);

    lru.insert(first, TestObject::new(first, [1u8; 3]));
    lru.insert(second, TestObject::new(second, [2u8; 3]));
    assert_eq!(2, lru.len());
    assert_eq!(2, lru.recency_len());

    // Re-inserting a known id must replace rather than grow.
    lru.insert(first, TestObject::new(first, [11u8; 3]));
    assert_eq!(2, lru.len());
    assert_eq!(2, lru.recency_len());

    // `first` was just written, so `second` is the one to go.
    lru.insert(third, TestObject::new(third, [3u8; 3]));
    assert_eq!(2, lru.len());
    assert_eq!(2, lru.recency_len());
    assert!(lru.contains(&first));
    assert!(!lru.contains(&second));
    assert!(lru.contains(&third));

    lru.remove(&first);
    assert_eq!(1, lru.len());
    assert_eq!(1, lru.recency_len());
    // Removing an unknown id is a no-op.
    lru.remove(&second);
    assert_eq!(1, lru.len());
    assert_eq!(1, lru.recency_len());
}

fn list_all_pages(data_store: &mut TestStore) -> Vec<TestObject> {
    let mut all = Vec::new();
    let mut page_token = None;
    loop {
        let page = data_store.list_page(page_token).ok().unwrap();
        all.extend(page.objects);
        match page.next_page_token {
            Some(token) => page_token = Some(token),
            None => break,
        }
    }
    all
}

fn insert_ascending(data_store: &mut TestStore, num_objects: usize) -> Vec<TestObject> {
    let mut objects = Vec::new();
    for i in 0..num_objects {
        let id = TestObjectId { id: (i as u32).to_be_bytes() };
        let object = TestObject::new(id, [7u8; 3]);
        data_store.insert(object).unwrap();
        objects.push(object);
    }
    objects
}

#[test]
fn list_page_walks_pages_in_reverse_creation_order() {
    let mut data_store = new_data_store(in_memory_store(), KeepAllEntries, Vec::new());
    let num_objects = 2 * IN_MEMORY_PAGE_SIZE + 25;
    let inserted = insert_ascending(&mut data_store, num_objects);

    // Check the pages themselves are sized and terminated as expected.
    let first = data_store.list_page(None).ok().unwrap();
    assert_eq!(IN_MEMORY_PAGE_SIZE, first.objects.len());
    let second = data_store.list_page(first.next_page_token).ok().unwrap();
    assert_eq!(IN_MEMORY_PAGE_SIZE, second.objects.len());
    let third = data_store.list_page(second.next_page_token).ok().unwrap();
    assert_eq!(25, third.objects.len());
    assert!(third.next_page_token.is_none());

    let mut expected = inserted;
    expected.reverse();
    assert_eq!(expected, list_all_pages(&mut data_store));
}

#[test]
fn list_page_orders_by_creation_not_by_update() {
    let mut data_store = new_data_store(in_memory_store(), KeepAllEntries, Vec::new());
    let inserted = insert_ascending(&mut data_store, IN_MEMORY_PAGE_SIZE + 10);

    let oldest = inserted.first().unwrap();
    let update = TestObjectUpdate { id: oldest.id, data: [99u8; 3], extra: None };
    assert_eq!(Ok(DataStoreUpdateResult::Updated), data_store.update(update));

    let listed = list_all_pages(&mut data_store);
    assert_eq!(inserted.len(), listed.len());
    assert_eq!(oldest.id, listed.last().unwrap().id);
    assert_eq!([99u8; 3], listed.last().unwrap().data);
}

#[test]
fn list_page_token_survives_a_restart() {
    let kv = in_memory_store();
    let num_objects = IN_MEMORY_PAGE_SIZE + 10;
    let inserted = insert_ascending(
        &mut new_data_store(Rc::clone(&kv), KeepAllEntries, Vec::new()),
        num_objects,
    );

    let first_page = new_data_store(Rc::clone(&kv), KeepAllEntries, Vec::new())
        .list_page(None)
        .ok()
        .unwrap();
    let token = first_page.next_page_token.clone().unwrap();

    let mut data_store = new_data_store(Rc::clone(&kv), KeepAllEntries, Vec::new());
    let second_page = data_store.list_page(Some(token)).ok().unwrap();

    let mut expected = inserted;
    expected.reverse();
    assert_eq!(expected[..IN_MEMORY_PAGE_SIZE], first_page.objects[..]);
    assert_eq!(expected[IN_MEMORY_PAGE_SIZE..], second_page.objects[..]);
    assert!(second_page.next_page_token.is_none());
}

#[test]
fn list_page_does_not_repeat_entries_after_removals_and_a_restart() {
    let kv = in_memory_store();
    let num_objects = IN_MEMORY_PAGE_SIZE + 10;
    let inserted = insert_ascending(
        &mut new_data_store(Rc::clone(&kv), KeepAllEntries, Vec::new()),
        num_objects,
    );

    let mut data_store = new_data_store(Rc::clone(&kv), KeepAllEntries, inserted.clone());
    let first_page = data_store.list_page(None).ok().unwrap();
    let token = first_page.next_page_token.clone().unwrap();
    let seen: Vec<TestObjectId> = first_page.objects.iter().map(|o| o.id).collect();

    let cursor_id = seen.last().copied().unwrap();
    data_store.remove(&cursor_id).unwrap();
    for object in inserted.iter().take(5) {
        data_store.remove(&object.id).unwrap();
    }

    let mut resumed = new_data_store(Rc::clone(&kv), KeepAllEntries, Vec::new());
    let second_page = resumed.list_page(Some(token)).ok().unwrap();
    for object in &second_page.objects {
        assert!(
            !seen.contains(&object.id),
            "Object {:?} was returned on more than one page",
            object.id
        );
    }
}

#[test]
fn list_page_serves_entries_that_are_not_in_memory() {
    let mut data_store = new_data_store(in_memory_store(), keep_lru(10), Vec::new());
    let inserted = insert_ascending(&mut data_store, 2 * IN_MEMORY_PAGE_SIZE + 25);
    assert_eq!(10, data_store.inner.cached_len());

    let mut expected = inserted;
    expected.reverse();
    assert_eq!(expected, list_all_pages(&mut data_store));
}

#[test]
fn list_page_does_not_disturb_the_cache() {
    let mut data_store = new_data_store(in_memory_store(), keep_lru(2), Vec::new());
    let first = test_id(1);
    let second = test_id(2);
    data_store.insert(TestObject::new(first, [1u8; 3])).unwrap();
    data_store.insert(TestObject::new(second, [2u8; 3])).unwrap();

    // Make `first` the most recently used, then sweep the whole namespace.
    assert!(data_store.get(&first).unwrap().is_some());
    assert_eq!(2, list_all_pages(&mut data_store).len());
    assert_eq!(2, data_store.inner.cached_len());

    // The sweep must not have counted as use, so `second` is still the one to evict.
    let third = test_id(3);
    data_store.insert(TestObject::new(third, [3u8; 3])).unwrap();
    assert!(data_store.inner.is_cached(&first));
    assert!(!data_store.inner.is_cached(&second));
    assert!(data_store.inner.is_cached(&third));
}

#[test]
fn list_page_skips_concurrently_removed_keys() {
    let kv = in_memory_store();
    kv.borrow_mut().phantom_key = Some(test_id(200).encode_to_hex_str());
    let mut data_store = new_data_store(kv, keep_lru(1), Vec::new());
    let inserted = insert_ascending(&mut data_store, 3);

    let page = data_store.list_page(None).ok().unwrap();
    assert_eq!(3, page.objects.len());
    for object in inserted {
        assert!(page.objects.contains(&object));
    }
}

#[test]
fn list_page_reports_failures() {
    let mut failing = new_data_store(failing_store(), KeepAllEntries, Vec::new());
    assert_eq!(Err(Error::PersistenceFailed), failing.list_page(None).map(|_| ()));
}

#[test]
fn list_page_rejects_a_malformed_token() {
    let mut data_store = new_data_store(in_memory_store(), KeepAllEntries, Vec::new());
    insert_ascending(&mut data_store, 1);

    let token = "not-a-token".to_string();
    assert_eq!(Err(Error::InvalidPageToken), data_store.list_page(Some(token)).map(|_| ()));
}

#[test]
fn list_page_reports_undecodable_objects() {
    let kv = in_memory_store();
    let mut data_store = new_data_store(Rc::clone(&kv), keep_lru(1), Vec::new());
    insert_ascending(&mut data_store, 2);

    // Corrupt an object that is no longer cached, so that listing has to read it back.
    let corrupted_id = TestObjectId { id: 0u32.to_be_bytes() };
    assert!(!data_store.inner.is_cached(&corrupted_id));
    kv.borrow_mut().write(&corrupted_id.encode_to_hex_str(), vec![0xff; 3]).unwrap();

    assert_eq!(Err(Error::PersistenceFailed), data_store.list_page(None).map(|_| ()));
}

#[test]
fn list_page_on_an_empty_store() {
    let mut data_store = new_data_store(in_memory_store(), KeepAllEntries, Vec::new());
    let page = data_store.list_page(None).ok().unwrap();
    assert!(page.objects.is_empty());
    assert!(page.next_page_token.is_none());
}
