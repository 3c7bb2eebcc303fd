//! An object store: objects persisted one per key, with all or the most recently used of them kept
//! in memory.
//!
//! The key-value store itself lives outside of this library. Every operation is therefore split
//! where it has to reach the key-value store: the first part says what to read, write or remove,
//! the second part takes the outcome and brings memory up to date. A caller runs the parts of one
//! mutation without letting another one in between.
pub mod cache;

use crate::data_store::cache::{CacheView, ObjectCache};
use crate::error::{Error, IoErrorKind};
use crate::vec_map::MapKey;
use vstd::prelude::*;

verus! {

/// The id of a stored object, which is written as text to serve as the key of the object.
pub trait StorableObjectId: MapKey {
    /// The text of the id.
    spec fn spec_encode(&self) -> Seq<char>;

    /// The id that some text stands for.
    spec fn spec_decode(s: Seq<char>) -> Option<Self>;

    fn encode_to_hex_str(&self) -> (s: String)
        ensures
            s@ == self.spec_encode(),
    ;

    /// Recovers an id from the representation produced by [`Self::encode_to_hex_str`].
    ///
    /// Gives `None` if `s` is not one. Callers listing a namespace must treat that as a cache miss
    /// and read the object instead, whose own id is authoritative, rather than assume the store
    /// only ever hands back keys we wrote.
    fn decode_from_hex_str(s: &str) -> (id: Option<Self>)
        ensures
            id == Self::spec_decode(s@),
    ;

    /// Decoding undoes encoding.
    proof fn decode_undoes_encode(&self)
        ensures
            Self::spec_decode(self.spec_encode()) == Some(*self),
    ;
}

/// An object a store can read, write and delete as a whole, keyed by its own id.
pub trait StorableObject: Sized {
    type Id: StorableObjectId;

    spec fn spec_id(&self) -> Self::Id;

    fn id(&self) -> (id: Self::Id)
        ensures
            id == self.spec_id(),
    ;

    /// A second copy of the object.
    fn duplicate(&self) -> (copy: Self)
        ensures
            copy == *self,
    ;
}

/// A [`StorableObject`] that a [`DataStore`] can merge an update into in place.
///
/// Separate from [`StorableObject`] because stores that only ever replace whole objects have no use
/// for this, and requiring it of them would mean supplying an update representation nothing calls.
pub trait UpdatableObject: StorableObject {
    type Update: StorableObjectUpdate<Self>;

    /// The object after an update, and whether the update changed anything.
    spec fn spec_update(&self, update: Self::Update) -> (Self, bool);

    /// The update that carries all of the object.
    spec fn spec_to_update(&self) -> Self::Update;

    fn update(&mut self, update: Self::Update) -> (changed: bool)
        ensures
            (*final(self), changed) == old(self).spec_update(update),
    ;

    fn to_update(&self) -> (update: Self::Update)
        ensures
            update == self.spec_to_update(),
    ;

    /// An update leaves the object's id alone, and one that changes nothing changes nothing.
    proof fn update_keeps_id(&self, update: Self::Update)
        ensures
            self.spec_update(update).0.spec_id() == self.spec_id(),
            !self.spec_update(update).1 ==> self.spec_update(update).0 == *self,
    ;
}

/// An update of a stored object.
pub trait StorableObjectUpdate<SO: StorableObject>: Sized {
    spec fn spec_update_id(&self) -> SO::Id;

    /// The id of the object the update is meant for.
    fn id(&self) -> (id: SO::Id)
        ensures
            id == self.spec_update_id(),
    ;
}

/// What became of an update.
#[derive(Clone, Copy, Debug, PartialEq, Eq, Structural)]
pub enum DataStoreUpdateResult {
    Updated,
    Unchanged,
    NotFound,
}

/// How many of a namespace's objects a [`DataStore`] keeps in memory.
#[derive(Clone, Copy, Debug, PartialEq, Eq, Structural)]
pub enum CacheLimit {
    /// Keep every object in memory.
    Unbounded,
    /// Keep at most this many objects in memory, which must not be zero.
    Bounded(usize),
}

impl CacheLimit {
    /// A bounded cache holds at least one object.
    pub open spec fn valid(self) -> bool {
        self matches CacheLimit::Bounded(n) ==> n > 0
    }
}

/// The caching policy of a [`DataStore`].
pub trait CachePolicy: Sized {
    spec fn spec_cache_limit(&self) -> CacheLimit;

    fn cache_limit(&self) -> (limit: CacheLimit)
        ensures
            limit == self.spec_cache_limit(),
    ;
}

/// Keeps every object of the namespace in memory.
///
/// Reads are served entirely from memory and never hit the key-value store. Required for stores
/// whose consumers rely on full scans via [`DataStore::list_filter`], and for stores small enough
/// that bounding them would buy nothing.
pub struct KeepAllEntries;

impl CachePolicy for KeepAllEntries {
    open spec fn spec_cache_limit(&self) -> CacheLimit {
        CacheLimit::Unbounded
    }

    fn cache_limit(&self) -> (limit: CacheLimit) {
        CacheLimit::Unbounded
    }
}

/// Keeps at most `capacity` least-recently-used objects in memory, reading through to the
/// key-value store whenever a lookup misses.
///
/// Suitable for namespaces that grow without bound over a node's lifetime.
pub struct KeepLeastRecentlyUsed {
    pub capacity: usize,
}

impl KeepLeastRecentlyUsed {
    pub fn new(capacity: usize) -> (policy: Self)
        requires
            capacity > 0,
        ensures
            policy.capacity == capacity,
            policy.spec_cache_limit() == CacheLimit::Bounded(capacity),
            policy.spec_cache_limit().valid(),
    {
        KeepLeastRecentlyUsed { capacity }
    }
}

impl CachePolicy for KeepLeastRecentlyUsed {
    open spec fn spec_cache_limit(&self) -> CacheLimit {
        CacheLimit::Bounded(self.capacity)
    }

    fn cache_limit(&self) -> (limit: CacheLimit) {
        CacheLimit::Bounded(self.capacity)
    }
}

/// What to do about a lookup.
pub enum Lookup<SO> {
    /// The object is in memory.
    Cached(SO),
    /// Everything is in memory and the object is not: there is none.
    Absent,
    /// The object of this key has to be read from the key-value store.
    Read(String),
}

/// The outcome of reading the object of a key.
pub enum ObjectRead<SO> {
    /// An object was read and decoded.
    Decoded(SO),
    /// There is data under the key that is no object.
    Undecodable,
    /// The read failed.
    Failed(IoErrorKind),
}

/// What to do about the removal of an object.
pub enum Removal {
    /// There is nothing to remove.
    KnownAbsent,
    /// The data of this key has to be removed from the key-value store.
    RemoveKey(String),
}

/// What to do about the question whether an object exists.
pub enum Presence {
    /// Memory knows the answer.
    Known(bool),
    /// Whether there is data under this key has to be asked of the key-value store.
    Read(String),
}

/// What to do about an update.
pub enum UpdateStep<SO> {
    /// There is no object to update.
    NotFound,
    /// The update changes nothing.
    Unchanged,
    /// The updated object has to be written.
    Write(SO),
}

/// A page of objects, as given by [`finish_page`].
pub struct DataStorePage<SO> {
    /// The objects in this page, ordered from most recently created to least recently created.
    pub objects: Vec<SO>,
    /// The token to pass to the next listing, or `None` if this was the last page.
    pub next_page_token: Option<String>,
}

/// The answer to a lookup, given what a read brought.
pub open spec fn read_result<SO>(read: ObjectRead<SO>) -> Result<Option<SO>, Error> {
    match read {
        ObjectRead::Decoded(object) => Ok(Some(object)),
        ObjectRead::Undecodable => Err(Error::PersistenceFailed),
        ObjectRead::Failed(kind) => if kind == IoErrorKind::NotFound {
            Ok(None)
        } else {
            Err(Error::PersistenceFailed)
        },
    }
}

/// An object store over one namespace of a key-value store.
pub struct DataStore<SO: StorableObject> {
    cache: ObjectCache<SO>,
    primary_namespace: String,
    secondary_namespace: String,
}

impl<SO: StorableObject> View for DataStore<SO> {
    type V = CacheView<SO::Id, SO>;

    closed spec fn view(&self) -> CacheView<SO::Id, SO> {
        self.cache@
    }
}

impl<SO: StorableObject> DataStore<SO> {
    pub closed spec fn wf(self) -> bool {
        self.cache.wf()
    }

    /// How many uses of objects the store has counted.
    pub closed spec fn clock(self) -> nat {
        self.cache.clock()
    }

    /// The two namespaces the store keeps its objects under.
    pub closed spec fn namespaces(self) -> (Seq<char>, Seq<char>) {
        (self.primary_namespace@, self.secondary_namespace@)
    }

    /// Creates a new store over the given namespace.
    ///
    /// `objects` seeds the cache and must already be persisted under that namespace: under a
    /// bounded policy any object beyond `cache_policy`'s capacity is dropped from memory
    /// immediately, and is only recoverable by reading it back from the store.
    ///
    /// They are taken in ascending order of recency, i.e., the last one given is treated as the
    /// most recently used and is therefore the last to be evicted. Callers seeding from a
    /// newest-first source have to reverse it.
    pub fn new<P: CachePolicy>(
        objects: Vec<SO>,
        cache_policy: P,
        primary_namespace: String,
        secondary_namespace: String,
    ) -> (store: Self)
        requires
            cache_policy.spec_cache_limit().valid(),
        ensures
            store.wf(),
            store@ == cache::seeded(cache::empty_cache(cache_policy.spec_cache_limit()), objects@),
            store.clock() <= objects@.len(),
            store.namespaces() == (primary_namespace@, secondary_namespace@),
    {
        let cache = ObjectCache::new(cache_policy.cache_limit(), objects);
        DataStore { cache, primary_namespace, secondary_namespace }
    }

    /// Whether another use of an object can be counted. It takes 2^64 of them until none can.
    pub fn can_count_use(&self) -> (can: bool)
        ensures
            can == (self.clock() < u64::MAX),
    {
        self.cache.can_count_use()
    }

    /// The two namespaces the store keeps its objects under.
    pub fn namespace_names(&self) -> (names: (&str, &str))
        ensures
            (names.0@, names.1@) == self.namespaces(),
    {
        (self.primary_namespace.as_str(), self.secondary_namespace.as_str())
    }

    /// The key an object is written under.
    pub fn store_key(object: &SO) -> (key: String)
        ensures
            key@ == object.spec_id().spec_encode(),
    {
        object.id().encode_to_hex_str()
    }

    /// Begins to look up the object stored under `id`: memory first, then, if memory does not hold
    /// everything, the key-value store.
    pub fn lookup(&mut self, id: &SO::Id) -> (step: Lookup<SO>)
        requires
            old(self).wf(),
            old(self).clock() < u64::MAX,
        ensures
            final(self).wf(),
            final(self).namespaces() == old(self).namespaces(),
            final(self).clock() <= old(self).clock() + 1,
            final(self)@ == old(self)@.after_get(*id),
            match step {
                Lookup::Cached(object) => old(self)@.get(*id) == Some(object),
                Lookup::Absent => old(self)@.get(*id) is None && old(self)@.keeps_all(),
                Lookup::Read(key) => {
                    &&& old(self)@.get(*id) is None
                    &&& !old(self)@.keeps_all()
                    &&& key@ == id.spec_encode()
                },
            },
    {
        let cached = self.cache.get(id);
        match cached {
            Some(object) => Lookup::Cached(object),
            None => if self.cache.is_keep_all() {
                Lookup::Absent
            } else {
                Lookup::Read(id.encode_to_hex_str())
            },
        }
    }

    /// Ends a lookup that had to read: an object that was found is cached, an absent key is a
    /// legitimate answer, everything else is a failure.
    pub fn finish_lookup(&mut self, id: &SO::Id, read: ObjectRead<SO>) -> (found: Result<
        Option<SO>,
        Error,
    >)
        requires
            old(self).wf(),
            old(self).clock() < u64::MAX,
        ensures
            final(self).wf(),
            final(self).namespaces() == old(self).namespaces(),
            final(self).clock() <= old(self).clock() + 1,
            found == read_result(read),
            final(self)@ == (match read {
                ObjectRead::Decoded(object) => old(self)@.after_insert(*id, object),
                _ => old(self)@,
            }),
    {
        match read {
            ObjectRead::Decoded(object) => {
                self.cache.insert(id.key_copy(), object.duplicate());
                Ok(Some(object))
            },
            ObjectRead::Undecodable => Err(Error::PersistenceFailed),
            ObjectRead::Failed(kind) => if kind == IoErrorKind::NotFound {
                Ok(None)
            } else {
                Err(Error::PersistenceFailed)
            },
        }
    }

    /// Ends the write of an object. Only what was persisted is brought into memory.
    pub fn finish_write(&mut self, object: SO, persisted: Result<(), IoErrorKind>) -> (done: Result<
        (),
        Error,
    >)
        requires
            old(self).wf(),
            old(self).clock() < u64::MAX,
        ensures
            final(self).wf(),
            final(self).namespaces() == old(self).namespaces(),
            final(self).clock() <= old(self).clock() + 1,
            done is Ok == persisted is Ok,
            done matches Err(e) ==> e == Error::PersistenceFailed && *final(self) == *old(self),
            done is Ok ==> final(self)@ == old(self)@.after_insert(object.spec_id(), object),
    {
        match persisted {
            Ok(()) => {
                let id = object.id();
                self.cache.insert(id, object);
                Ok(())
            },
            Err(_) => Err(Error::PersistenceFailed),
        }
    }

    /// Ends a transformation of an object: `new_object` is what the transformation made of the
    /// looked-up object, or nothing if it declined to write. Gives back what was written.
    pub fn finish_mutate(
        &mut self,
        new_object: Option<SO>,
        persisted: Result<(), IoErrorKind>,
    ) -> (written: Result<Option<SO>, Error>)
        requires
            old(self).wf(),
            old(self).clock() < u64::MAX,
        ensures
            final(self).wf(),
            final(self).namespaces() == old(self).namespaces(),
            final(self).clock() <= old(self).clock() + 1,
            match new_object {
                None => written == Ok::<Option<SO>, Error>(None) && *final(self) == *old(self),
                Some(object) => if persisted is Ok {
                    &&& written == Ok::<Option<SO>, Error>(Some(object))
                    &&& final(self)@ == old(self)@.after_insert(object.spec_id(), object)
                } else {
                    &&& written == Err::<Option<SO>, Error>(Error::PersistenceFailed)
                    &&& *final(self) == *old(self)
                },
            },
    {
        match new_object {
            None => Ok(None),
            Some(object) => {
                let copy = object.duplicate();
                match self.finish_write(object, persisted) {
                    Ok(()) => Ok(Some(copy)),
                    Err(e) => Err(e),
                }
            },
        }
    }

    /// Begins to remove the object stored under `id`, if any.
    pub fn begin_remove(&self, id: &SO::Id) -> (step: Removal)
        requires
            self.wf(),
        ensures
            match step {
                Removal::KnownAbsent => self@.keeps_all() && self@.get(*id) is None,
                Removal::RemoveKey(key) => {
                    &&& !(self@.keeps_all() && self@.get(*id) is None)
                    &&& key@ == id.spec_encode()
                },
            },
    {
        if self.cache.is_keep_all() && !self.cache.contains(id) {
            Removal::KnownAbsent
        } else {
            Removal::RemoveKey(id.encode_to_hex_str())
        }
    }

    /// Ends a removal. Memory only forgets what the key-value store has removed.
    pub fn finish_remove(&mut self, id: &SO::Id, removed: Result<(), IoErrorKind>) -> (done: Result<
        (),
        Error,
    >)
        requires
            old(self).wf(),
        ensures
            final(self).wf(),
            final(self).namespaces() == old(self).namespaces(),
            final(self).clock() == old(self).clock(),
            done is Ok == removed is Ok,
            done matches Err(e) ==> e == Error::PersistenceFailed && *final(self) == *old(self),
            done is Ok ==> final(self)@ == old(self)@.after_remove(*id),
    {
        match removed {
            Ok(()) => {
                self.cache.remove(id);
                Ok(())
            },
            Err(_) => Err(Error::PersistenceFailed),
        }
    }

    /// Begins to find out whether an object is stored under `id`, without caching it.
    pub fn begin_contains_key(&self, id: &SO::Id) -> (step: Presence)
        requires
            self.wf(),
        ensures
            match step {
                Presence::Known(found) => {
                    &&& found == (self@.get(*id) is Some)
                    &&& found || self@.keeps_all()
                },
                Presence::Read(key) => {
                    &&& self@.get(*id) is None
                    &&& !self@.keeps_all()
                    &&& key@ == id.spec_encode()
                },
            },
    {
        if self.cache.contains(id) {
            Presence::Known(true)
        } else if self.cache.is_keep_all() {
            Presence::Known(false)
        } else {
            Presence::Read(id.encode_to_hex_str())
        }
    }

    /// The objects of a page of keys that memory holds, each in the slot of its key, and the keys
    /// with the slots of those that have to be read.
    ///
    /// Memory is only peeked at: a listing sweep walks the whole namespace, so letting it count as
    /// use would evict the working set it walks past.
    pub fn begin_page(&self, keys: &Vec<String>) -> (page: (Vec<Option<SO>>, Vec<(usize, String)>))
        requires
            self.wf(),
        ensures
            page.0@.len() == keys@.len(),
            forall|i: int|
                0 <= i < keys@.len() ==> #[trigger] page.0@[i] == peeked(self@, keys@[i]@),
            page.1@.len() == missing_slots(page.0@, keys@.len()).len(),
            forall|j: int|
                0 <= j < page.1@.len() ==> {
                    &&& (#[trigger] page.1@[j]).0 == missing_slots(page.0@, keys@.len())[j]
                    &&& page.1@[j].1@ == keys@[page.1@[j].0 as int]@
                },
    {
        let n: usize = keys.len();
        let mut objects: Vec<Option<SO>> = Vec::new();
        let mut missing: Vec<(usize, String)> = Vec::new();
        let mut idx: usize = 0;
        while idx < n
            invariant
                self.wf(),
                idx <= n,
                n == keys@.len(),
                objects@.len() == idx,
                forall|i: int|
                    0 <= i < idx ==> #[trigger] objects@[i] == peeked(self@, keys@[i]@),
                missing@.len() == missing_slots(objects@, idx as nat).len(),
                forall|j: int|
                    0 <= j < missing@.len() ==> {
                        &&& (#[trigger] missing@[j]).0 == missing_slots(objects@, idx as nat)[j]
                        &&& missing@[j].0 < idx
                        &&& missing@[j].1@ == keys@[missing@[j].0 as int]@
                    },
            decreases n - idx,
        {
            let key = &keys[idx];
            let held = match SO::Id::decode_from_hex_str(key.as_str()) {
                Some(id) => self.cache.peek(&id),
                None => None,
            };
            let ghost before = objects@;
            if held.is_none() {
                missing.push((idx, key.clone()));
            }
            objects.push(held);
            proof {
                lemma_missing_slots_prefix(before, objects@, idx as nat);
            }
            idx += 1;
        }
        (objects, missing)
    }
}

/// The object that memory holds for a key of the key-value store.
pub open spec fn peeked<SO: StorableObject>(
    cache: CacheView<SO::Id, SO>,
    key: Seq<char>,
) -> Option<SO> {
    match SO::Id::spec_decode(key) {
        Some(id) => cache.get(id),
        None => None,
    }
}

/// The slots below `n` that hold no object, in ascending order.
pub open spec fn missing_slots<SO>(objects: Seq<Option<SO>>, n: nat) -> Seq<usize>
    decreases n,
{
    if n == 0 {
        Seq::empty()
    } else if objects[n - 1] is None {
        missing_slots(objects, (n - 1) as nat).push((n - 1) as usize)
    } else {
        missing_slots(objects, (n - 1) as nat)
    }
}

proof fn lemma_missing_slots_prefix<SO>(a: Seq<Option<SO>>, b: Seq<Option<SO>>, n: nat)
    requires
        n <= a.len(),
        n <= b.len(),
        forall|i: int| 0 <= i < n ==> a[i] == b[i],
    ensures
        missing_slots(a, n) == missing_slots(b, n),
    decreases n,
{
    if n > 0 {
        lemma_missing_slots_prefix(a, b, (n - 1) as nat);
    }
}

/// The answer to the question whether an object exists, given what the key-value store said.
pub fn finish_contains_key(read: Result<(), IoErrorKind>) -> (found: Result<bool, Error>)
    ensures
        found == (match read {
            Ok(()) => Ok::<bool, Error>(true),
            Err(kind) => if kind == IoErrorKind::NotFound {
                Ok::<bool, Error>(false)
            } else {
                Err::<bool, Error>(Error::PersistenceFailed)
            },
        }),
{
    match read {
        Ok(()) => Ok(true),
        Err(kind) => if kind == IoErrorKind::NotFound {
            Ok(false)
        } else {
            Err(Error::PersistenceFailed)
        },
    }
}

/// The error of a listing that failed: a backend rejects a token it didn't issue, which is the
/// caller's problem rather than a persistence failure.
pub fn list_error(kind: IoErrorKind) -> (e: Error)
    ensures
        e == (if kind == IoErrorKind::InvalidInput {
            Error::InvalidPageToken
        } else {
            Error::PersistenceFailed
        }),
{
    if kind == IoErrorKind::InvalidInput {
        Error::InvalidPageToken
    } else {
        Error::PersistenceFailed
    }
}

/// Whether a read that was meant to fill a slot of a page failed the listing. An object that was
/// removed since the keys were listed does not.
pub open spec fn fails_page<SO>(read: ObjectRead<SO>) -> bool {
    read is Undecodable || (read matches ObjectRead::Failed(kind) && kind != IoErrorKind::NotFound)
}

/// The slots of a page after the first `n` reads arrived, in whatever order they did.
pub open spec fn filled<SO>(
    objects: Seq<Option<SO>>,
    reads: Seq<(usize, ObjectRead<SO>)>,
    n: nat,
) -> Seq<Option<SO>>
    decreases n,
{
    if n == 0 {
        objects
    } else {
        let rest = filled(objects, reads, (n - 1) as nat);
        match reads[n - 1].1 {
            ObjectRead::Decoded(object) => rest.update(reads[n - 1].0 as int, Some(object)),
            _ => rest,
        }
    }
}

/// Whether a read is the first one that fails a page.
pub open spec fn is_first_failure<SO>(reads: Seq<(usize, ObjectRead<SO>)>, k: int) -> bool {
    &&& 0 <= k < reads.len()
    &&& fails_page(reads[k].1)
    &&& forall|i: int| 0 <= i < k ==> !fails_page(#[trigger] reads[i].1)
}

/// Puts the objects that were read into their slots. The first read that failed ends it, and leaves what
/// was put in by then.
pub fn read_missing<SO: StorableObject>(
    objects: &mut Vec<Option<SO>>,
    reads: &Vec<(usize, ObjectRead<SO>)>,
) -> (done: Result<(), Error>)
    requires
        forall|i: int| 0 <= i < reads@.len() ==> (#[trigger] reads@[i]).0 < old(objects)@.len(),
    ensures
        done is Err == exists|i: int| 0 <= i < reads@.len() && fails_page(#[trigger] reads@[i].1),
        done matches Err(e) ==> e == Error::PersistenceFailed,
        final(objects)@.len() == old(objects)@.len(),
        done is Ok ==> final(objects)@ == filled(old(objects)@, reads@, reads@.len()),
        done is Err ==> exists|k: int| #[trigger]
            is_first_failure(reads@, k) && final(objects)@ == filled(
                old(objects)@,
                reads@,
                k as nat,
            ),
{
    let n: usize = reads.len();
    let mut i: usize = 0;
    while i < n
        invariant
            i <= n,
            n == reads@.len(),
            objects@.len() == old(objects)@.len(),
            objects@ == filled(old(objects)@, reads@, i as nat),
            forall|j: int| 0 <= j < reads@.len() ==> (#[trigger] reads@[j]).0 < old(objects)@.len(),
            forall|j: int| 0 <= j < i ==> !fails_page(#[trigger] reads@[j].1),
        decreases n - i,
    {
        match &reads[i].1 {
            ObjectRead::Decoded(object) => {
                let slot: usize = reads[i].0;
                objects.set(slot, Some(object.duplicate()));
            },
            ObjectRead::Undecodable => {
                assert(is_first_failure(reads@, i as int));
                return Err(Error::PersistenceFailed);
            },
            ObjectRead::Failed(kind) => if *kind != IoErrorKind::NotFound {
                assert(is_first_failure(reads@, i as int));
                return Err(Error::PersistenceFailed);
            },
        }
        i += 1;
    }
    Ok(())
}

/// The objects in the filled ones of the first `n` slots, in order.
pub open spec fn flattened<SO>(objects: Seq<Option<SO>>, n: nat) -> Seq<SO>
    decreases n,
{
    if n == 0 {
        Seq::empty()
    } else {
        match objects[n - 1] {
            Some(object) => flattened(objects, (n - 1) as nat).push(object),
            None => flattened(objects, (n - 1) as nat),
        }
    }
}

/// Makes a page of the slots, skipping the empty ones. The backend's token is handed on unchanged.
pub fn finish_page<SO: StorableObject>(
    objects: &Vec<Option<SO>>,
    next_page_token: Option<String>,
) -> (page: DataStorePage<SO>)
    ensures
        page.objects@ == flattened(objects@, objects@.len()),
        page.next_page_token == next_page_token,
{
    let n: usize = objects.len();
    let mut listed: Vec<SO> = Vec::new();
    let mut i: usize = 0;
    while i < n
        invariant
            i <= n,
            n == objects@.len(),
            listed@ == flattened(objects@, i as nat),
        decreases n - i,
    {
        if let Some(object) = &objects[i] {
            listed.push(object.duplicate());
        }
        i += 1;
    }
    DataStorePage { objects: listed, next_page_token }
}

impl<SO: UpdatableObject> DataStore<SO> {
    /// What an insertion has to write when an object may already be stored: the object itself, or
    /// the stored one with the object's full update merged into it, or nothing if that changes
    /// nothing.
    pub fn merge(object: SO, existing: Option<SO>) -> (to_write: Option<SO>)
        ensures
            to_write == (match existing {
                None => Some(object),
                Some(stored) => {
                    let merged = stored.spec_update(object.spec_to_update());
                    if merged.1 {
                        Some(merged.0)
                    } else {
                        None
                    }
                },
            }),
    {
        match existing {
            None => Some(object),
            Some(stored) => {
                let mut updated = stored;
                if updated.update(object.to_update()) {
                    Some(updated)
                } else {
                    None
                }
            },
        }
    }

    /// What an update has to write.
    pub fn apply_update(existing: Option<SO>, update: SO::Update) -> (step: UpdateStep<SO>)
        ensures
            step == (match existing {
                None => UpdateStep::NotFound,
                Some(stored) => {
                    let updated = stored.spec_update(update);
                    if updated.1 {
                        UpdateStep::Write(updated.0)
                    } else {
                        UpdateStep::Unchanged
                    }
                },
            }),
    {
        match existing {
            None => UpdateStep::NotFound,
            Some(stored) => {
                let mut updated = stored;
                if updated.update(update) {
                    UpdateStep::Write(updated)
                } else {
                    UpdateStep::Unchanged
                }
            },
        }
    }

    /// Ends the write of an object that was looked up under `id`, and is kept in memory under it.
    fn finish_write_under(
        &mut self,
        id: &SO::Id,
        object: SO,
        persisted: Result<(), IoErrorKind>,
    ) -> (done: Result<(), Error>)
        requires
            old(self).wf(),
            old(self).clock() < u64::MAX,
        ensures
            final(self).wf(),
            final(self).namespaces() == old(self).namespaces(),
            final(self).clock() <= old(self).clock() + 1,
            done == (if persisted is Ok {
                Ok::<(), Error>(())
            } else {
                Err::<(), Error>(Error::PersistenceFailed)
            }),
            final(self)@ == (if persisted is Ok {
                old(self)@.after_insert(*id, object)
            } else {
                old(self)@
            }),
    {
        match persisted {
            Ok(()) => {
                self.cache.insert(id.key_copy(), object);
                Ok(())
            },
            Err(_) => Err(Error::PersistenceFailed),
        }
    }

    /// Ends an insertion that may have merged into an object stored under `id`, with the outcome of the
    /// write that [`DataStore::merge`] asked for. Says whether anything was written.
    pub fn finish_merge(
        &mut self,
        id: &SO::Id,
        merged: Option<SO>,
        persisted: Result<(), IoErrorKind>,
    ) -> (written: Result<bool, Error>)
        requires
            old(self).wf(),
            old(self).clock() < u64::MAX,
        ensures
            final(self).wf(),
            final(self).namespaces() == old(self).namespaces(),
            final(self).clock() <= old(self).clock() + 1,
            written == (match merged {
                None => Ok::<bool, Error>(false),
                Some(_) => if persisted is Ok {
                    Ok::<bool, Error>(true)
                } else {
                    Err::<bool, Error>(Error::PersistenceFailed)
                },
            }),
            final(self)@ == (match merged {
                Some(object) if persisted is Ok => old(self)@.after_insert(*id, object),
                _ => old(self)@,
            }),
    {
        match merged {
            None => Ok(false),
            Some(object) => match self.finish_write_under(id, object, persisted) {
                Ok(()) => Ok(true),
                Err(e) => Err(e),
            },
        }
    }

    /// Ends an update of the object stored under `id` with the outcome of the write that it asked for.
    pub fn finish_update(
        &mut self,
        id: &SO::Id,
        step: UpdateStep<SO>,
        persisted: Result<(), IoErrorKind>,
    ) -> (result: Result<DataStoreUpdateResult, Error>)
        requires
            old(self).wf(),
            old(self).clock() < u64::MAX,
        ensures
            final(self).wf(),
            final(self).namespaces() == old(self).namespaces(),
            final(self).clock() <= old(self).clock() + 1,
            result == (match step {
                UpdateStep::NotFound => Ok::<DataStoreUpdateResult, Error>(
                    DataStoreUpdateResult::NotFound,
                ),
                UpdateStep::Unchanged => Ok::<DataStoreUpdateResult, Error>(
                    DataStoreUpdateResult::Unchanged,
                ),
                UpdateStep::Write(_) => if persisted is Ok {
                    Ok::<DataStoreUpdateResult, Error>(DataStoreUpdateResult::Updated)
                } else {
                    Err::<DataStoreUpdateResult, Error>(Error::PersistenceFailed)
                },
            }),
            final(self)@ == (match step {
                UpdateStep::Write(object) if persisted is Ok => old(self)@.after_insert(
                    *id,
                    object,
                ),
                _ => old(self)@,
            }),
    {
        match step {
            UpdateStep::NotFound => Ok(DataStoreUpdateResult::NotFound),
            UpdateStep::Unchanged => Ok(DataStoreUpdateResult::Unchanged),
            UpdateStep::Write(object) => match self.finish_write_under(id, object, persisted) {
                Ok(()) => Ok(DataStoreUpdateResult::Updated),
                Err(e) => Err(e),
            },
        }
    }
}

impl<SO: StorableObject> DataStore<SO> {
    /// All stored objects matching `f`.
    ///
    /// Only available on stores that keep every object in memory: answering this on a bounded
    /// store would mean reading its entire namespace back, which is exactly what such a store
    /// exists to avoid.
    pub fn list_filter<F: Fn(&SO) -> bool>(&self, f: F) -> (matching: Vec<SO>)
        requires
            self.wf(),
            self@.keeps_all(),
            forall|object: &SO| #[trigger] call_requires(f, (object,)),
        ensures
            exists|ids: Seq<SO::Id>| #[trigger]
                cache::filtered(self@, f, ids, matching@),
    {
        self.cache.filter(f)
    }

    /// The number of objects in memory.
    pub fn cached_len(&self) -> (n: usize)
        requires
            self.wf(),
        ensures
            n == self@.count(),
            self@.valid(),
    {
        self.cache.len()
    }

    /// Whether an object is in memory.
    pub fn is_cached(&self, id: &SO::Id) -> (found: bool)
        requires
            self.wf(),
        ensures
            found == (self@.get(*id) is Some),
    {
        self.cache.contains(id)
    }
}

/// Memory says nothing that the persisted objects do not say: a cache of everything equals them,
/// any other cache holds some of them as they are.
pub open spec fn coherent<Id, SO>(cache: CacheView<Id, SO>, persisted: Map<Id, SO>) -> bool {
    match cache {
        CacheView::KeepAll(m) => m == persisted,
        CacheView::Lru(..) => forall|id: Id| #[trigger]
            cache.get(id) is Some ==> persisted.dom().contains(id) && cache.get(id) == Some(
                persisted[id],
            ),
    }
}

/// The persisted object of an id.
pub open spec fn persisted_object<Id, SO>(persisted: Map<Id, SO>, id: Id) -> Option<SO> {
    if persisted.dom().contains(id) {
        Some(persisted[id])
    } else {
        None
    }
}

/// A lookup answers with what is persisted, whether memory knows it or not, and memory stays
/// coherent with it.
pub proof fn law_lookup_finds_what_is_persisted<Id, SO>(
    cache: CacheView<Id, SO>,
    persisted: Map<Id, SO>,
    id: Id,
)
    requires
        cache.valid(),
        coherent(cache, persisted),
    ensures
        cache.get(id) is Some ==> cache.get(id) == persisted_object(persisted, id),
        cache.get(id) is None && cache.keeps_all() ==> persisted_object(persisted, id) is None,
        cache.after_get(id).valid(),
        coherent(cache.after_get(id), persisted),
        persisted.dom().contains(id) ==> coherent(
            cache.after_get(id).after_insert(id, persisted[id]),
            persisted,
        ) && cache.after_get(id).after_insert(id, persisted[id]).valid(),
{
    law_after_get_answers_alike(cache, id);
    if persisted.dom().contains(id) {
        assert(persisted.insert(id, persisted[id]) =~= persisted);
        law_write_keeps_coherence(cache.after_get(id), persisted, id, persisted[id]);
    }
}

/// Using an object changes what is used next, and nothing that is found.
pub proof fn law_after_get_answers_alike<Id, SO>(cache: CacheView<Id, SO>, id: Id)
    requires
        cache.valid(),
    ensures
        cache.after_get(id).valid(),
        cache.after_get(id).count() == cache.count(),
        forall|x: Id| #[trigger] cache.after_get(id).get(x) == cache.get(x),
{
    match cache {
        CacheView::KeepAll(_) => {},
        CacheView::Lru(s, n) => {
            if cache::find(s, id) is Some {
                cache::lemma_touched(s, id, cache::find(s, id)->0);
                assert forall|x: Id| #[trigger] cache.after_get(id).get(x) == cache.get(x) by {
                    assert(cache::find(cache::touched(s, id, cache::find(s, id)->0), x) == cache::find(s, x));
                }
            }
        },
    }
}

/// Once a write was persisted and taken into memory, memory is coherent with what is persisted,
/// still within its limit, and answers with what was written.
pub proof fn law_write_keeps_coherence<Id, SO>(
    cache: CacheView<Id, SO>,
    persisted: Map<Id, SO>,
    id: Id,
    object: SO,
)
    requires
        cache.valid(),
        coherent(cache, persisted),
    ensures
        cache.after_insert(id, object).valid(),
        coherent(cache.after_insert(id, object), persisted.insert(id, object)),
        cache.after_insert(id, object).get(id) == Some(object),
{
    match cache {
        CacheView::KeepAll(_) => {},
        CacheView::Lru(s, n) => {
            let t = cache::touched(s, id, object);
            cache::lemma_touched(s, id, object);
            cache::lemma_newest(t, n);
            let after = cache.after_insert(id, object);
            cache::lemma_find(cache::newest(t, n), id);
            assert(cache::newest(t, n)[cache::newest(t, n).len() - 1].0 == id);
            assert forall|x: Id| #[trigger] after.get(x) is Some implies persisted.insert(
                id,
                object,
            ).dom().contains(x) && after.get(x) == Some(persisted.insert(id, object)[x]) by {
                assert(cache::find(cache::newest(t, n), x) == cache::find(t, x));
                if x != id {
                    assert(cache::find(t, x) == cache::find(s, x));
                    assert(cache.get(x) is Some);
                }
            }
        },
    }
}

/// Once a removal was carried out and memory forgot the object, memory is coherent with what is
/// persisted and no longer knows the object.
pub proof fn law_removal_keeps_coherence<Id, SO>(
    cache: CacheView<Id, SO>,
    persisted: Map<Id, SO>,
    id: Id,
)
    requires
        cache.valid(),
        coherent(cache, persisted),
    ensures
        cache.after_remove(id).valid(),
        coherent(cache.after_remove(id), persisted.remove(id)),
        cache.after_remove(id).get(id) is None,
{
    match cache {
        CacheView::KeepAll(_) => {},
        CacheView::Lru(s, n) => {
            cache::lemma_without(s, id);
            let after = cache.after_remove(id);
            assert forall|x: Id| #[trigger] after.get(x) is Some implies persisted.remove(
                id,
            ).dom().contains(x) && after.get(x) == Some(persisted.remove(id)[x]) by {
                if x != id {
                    assert(cache::find(cache::without(s, id), x) == cache::find(s, x));
                    assert(cache.get(x) is Some);
                }
            }
        },
    }
}

/// A bounded cache that has to make room drops its least recently used object and keeps every
/// other one.
pub proof fn law_least_recently_used_is_evicted<Id, SO>(
    s: Seq<(Id, SO)>,
    limit: nat,
    id: Id,
    object: SO,
)
    requires
        CacheView::Lru(s, limit).valid(),
        s.len() == limit,
        cache::find(s, id) is None,
    ensures
        cache::find(cache::newest(cache::touched(s, id, object), limit), id) == Some(object),
        limit > 0 ==> cache::find(cache::newest(cache::touched(s, id, object), limit), s[0].0) is None,
        forall|x: Id|
            x != id && x != s[0].0 ==> #[trigger] cache::find(cache::newest(cache::touched(s, id, object), limit), x)
                == cache::find(s, x),
{
    let t = cache::touched(s, id, object);
    cache::lemma_touched(s, id, object);
    cache::lemma_newest(t, limit);
    cache::lemma_find(s, id);
    assert forall|i: int| 0 <= i < s.len() implies (#[trigger] s[i]).0 != id by {}
    cache::lemma_without_absent(s, id);
    assert(t =~= s.push((id, object)));
    assert(t[0] == s[0]);
    let kept = cache::newest(t, limit);
    cache::lemma_find(kept, id);
    assert(kept[kept.len() - 1].0 == id);
    cache::lemma_find(kept, s[0].0);
    if cache::find(kept, s[0].0) is Some {
        let i = choose|i: int| 0 <= i < kept.len() && (#[trigger] kept[i]).0 == s[0].0;
        assert(kept[i] == t[i + 1]);
        assert(t[0].0 != t[i + 1].0);
    }
    assert forall|x: Id| x != id && x != s[0].0 implies #[trigger] cache::find(kept, x) == cache::find(s, x) by {
        assert(cache::find(kept, x) == cache::find(t, x));
        assert(cache::find(t, x) == cache::find(s, x));
    }
}

/// The last object that a store is seeded with is in memory.
pub proof fn law_last_seeded_is_cached<SO: StorableObject>(limit: CacheLimit, objects: Seq<SO>)
    requires
        limit.valid(),
    ensures
        cache::seeded(cache::empty_cache(limit), objects).valid(),
        cache::seeded(cache::empty_cache(limit), objects).keeps_all() == (limit == CacheLimit::Unbounded),
        objects.len() > 0 ==> cache::seeded(cache::empty_cache(limit), objects).get(objects.last().spec_id())
            == Some(objects.last()),
    decreases objects.len(),
{
    if objects.len() > 0 {
        law_last_seeded_is_cached(limit, objects.drop_last());
        let before = cache::seeded(cache::empty_cache::<SO::Id, SO>(limit), objects.drop_last());
        match before {
            CacheView::KeepAll(_) => {},
            CacheView::Lru(s, n) => {
                let id = objects.last().spec_id();
                let t = cache::touched(s, id, objects.last());
                cache::lemma_touched(s, id, objects.last());
                cache::lemma_newest(t, n);
                cache::lemma_find(cache::newest(t, n), id);
                assert(cache::newest(t, n)[cache::newest(t, n).len() - 1].0 == id);
            },
        }
    }
}

/// What was read is the object where it could be decoded, nothing where there is none, and an error in all
/// other cases: an object that cannot be decoded never counts as missing.
pub proof fn law_unreadable_objects_are_errors<SO>(object: SO, kind: IoErrorKind)
    ensures
        read_result(ObjectRead::Decoded(object)) == Ok::<Option<SO>, Error>(Some(object)),
        read_result(ObjectRead::<SO>::Undecodable) == Err::<Option<SO>, Error>(
            Error::PersistenceFailed,
        ),
        read_result(ObjectRead::<SO>::Failed(IoErrorKind::NotFound)) == Ok::<Option<SO>, Error>(
            None,
        ),
        kind != IoErrorKind::NotFound ==> read_result(ObjectRead::<SO>::Failed(kind)) == Err::<
            Option<SO>,
            Error,
        >(Error::PersistenceFailed),
        !fails_page(ObjectRead::Decoded(object)),
        fails_page(ObjectRead::<SO>::Undecodable),
        fails_page(ObjectRead::<SO>::Failed(kind)) <==> kind != IoErrorKind::NotFound,
{
}

/// A key of a page is looked up in memory by the id that it stands for, and one that stands for none is not
/// found there.
pub proof fn law_keys_are_looked_up_by_their_ids<SO: StorableObject>(
    cache: CacheView<SO::Id, SO>,
    id: SO::Id,
    key: Seq<char>,
)
    ensures
        peeked::<SO>(cache, id.spec_encode()) == cache.get(id),
        SO::Id::spec_decode(key) is None ==> peeked::<SO>(cache, key) is None,
{
    id.decode_undoes_encode();
}

/// All objects of a page that are not in memory are read, each once and in the order of the page.
pub proof fn law_missing_objects_are_read<SO>(objects: Seq<Option<SO>>, n: nat, i: int, j: int)
    requires
        n <= objects.len() <= usize::MAX,
    ensures
        0 <= i < n && objects[i] is None ==> missing_slots(objects, n).contains(i as usize),
        0 <= j < missing_slots(objects, n).len() ==> missing_slots(objects, n)[j] < n
            && objects[missing_slots(objects, n)[j] as int] is None,
        0 <= i < j < missing_slots(objects, n).len() ==> missing_slots(objects, n)[i]
            < missing_slots(objects, n)[j],
    decreases n,
{
    if n > 0 {
        let m = (n - 1) as nat;
        let before = missing_slots(objects, m);
        let all = missing_slots(objects, n);
        law_missing_objects_are_read(objects, m, i, j);
        if 0 <= i < m && objects[i] is None {
            let k = choose|k: int| 0 <= k < before.len() && before[k] == i as usize;
            assert(all[k] == i as usize);
        }
        if objects[m as int] is None {
            assert(all[before.len() as int] == m as usize);
            if 0 <= i < before.len() {
                law_missing_objects_are_read(objects, m, 0, i);
            }
        }
    }
}

/// What is read goes where it belongs on the page. What is not there any more leaves its place empty, and
/// the other places stay as they are.
pub proof fn law_read_objects_go_in_their_places<SO>(
    objects: Seq<Option<SO>>,
    reads: Seq<(usize, ObjectRead<SO>)>,
    n: nat,
    place: int,
    k: int,
)
    requires
        n <= reads.len(),
        0 <= place < objects.len(),
        forall|i: int| 0 <= i < reads.len() ==> (#[trigger] reads[i]).0 < objects.len(),
    ensures
        filled(objects, reads, n).len() == objects.len(),
        (forall|i: int| 0 <= i < n ==> (#[trigger] reads[i]).0 != place) ==> filled(
            objects,
            reads,
            n,
        )[place] == objects[place],
        0 <= k < n && reads[k].0 == place && (forall|i: int|
            k < i < n ==> (#[trigger] reads[i]).0 != place) ==> (reads[k].1
            matches ObjectRead::Decoded(object) ==> filled(objects, reads, n)[place] == Some(
            object,
        )),
    decreases n,
{
    if n > 0 {
        law_read_objects_go_in_their_places(objects, reads, (n - 1) as nat, place, k);
        assert(reads[n - 1].0 < objects.len());
        if forall|i: int| 0 <= i < n ==> (#[trigger] reads[i]).0 != place {
            assert(reads[n - 1].0 != place);
        }
        if 0 <= k < n - 1 && (forall|i: int| k < i < n ==> (#[trigger] reads[i]).0 != place) {
            assert(reads[n - 1].0 != place);
        }
    }
}

/// A page holds the objects of its places, in order, and leaves out the empty ones.
pub proof fn law_pages_hold_what_was_found<SO>(objects: Seq<Option<SO>>, n: nat)
    requires
        n < objects.len(),
    ensures
        objects[n as int] matches Some(object) ==> flattened(objects, n + 1) == flattened(
            objects,
            n,
        ).push(object),
        objects[n as int] is None ==> flattened(objects, n + 1) == flattened(objects, n),
        flattened(objects, 0).len() == 0,
{
}

/// The failure that ends the reading of a page is the first one.
pub proof fn law_the_first_failure_ends_a_page<SO>(
    reads: Seq<(usize, ObjectRead<SO>)>,
    k: int,
    i: int,
)
    requires
        is_first_failure(reads, k),
    ensures
        0 <= k < reads.len(),
        fails_page(reads[k].1),
        0 <= i < reads.len() && fails_page(reads[i].1) ==> k <= i,
{
}

/// Memory that keeps everything holds just what is persisted, and bounded memory holds nothing else.
pub proof fn law_memory_holds_what_is_persisted<Id, SO>(
    cache: CacheView<Id, SO>,
    persisted: Map<Id, SO>,
    id: Id,
    object: SO,
)
    requires
        coherent(cache, persisted),
    ensures
        cache.get(id) == Some(object) ==> persisted.dom().contains(id) && persisted[id] == object,
        cache.keeps_all() && persisted.dom().contains(id) ==> cache.get(id) == Some(persisted[id]),
        persisted.dom().contains(id) ==> persisted_object(persisted, id) == Some(persisted[id]),
        !persisted.dom().contains(id) ==> persisted_object(persisted, id) is None,
{
}

/// A key that is not found is not contained, and every other failure is an error. A page that cannot be
/// listed is the fault of its token where the input is refused.
pub proof fn law_missing_keys_are_not_contained(
    kind: IoErrorKind,
    there: Result<bool, Error>,
    failed: Result<bool, Error>,
    e: Error,
)
    requires
        call_ensures(finish_contains_key, (Ok(()),), there),
        call_ensures(finish_contains_key, (Err(kind),), failed),
        call_ensures(list_error, (kind,), e),
    ensures
        there == Ok::<bool, Error>(true),
        kind == IoErrorKind::NotFound ==> failed == Ok::<bool, Error>(false),
        kind != IoErrorKind::NotFound ==> failed == Err::<bool, Error>(Error::PersistenceFailed),
        e == Error::InvalidPageToken <==> kind == IoErrorKind::InvalidInput,
        kind != IoErrorKind::InvalidInput ==> e == Error::PersistenceFailed,
{
}

/// An update is written exactly if the object is there and the update changes it, and an object that is
/// merged is written as it is where there is none yet.
pub proof fn law_only_changes_are_written<SO: UpdatableObject>(
    stored: SO,
    update: SO::Update,
    object: SO,
    step: UpdateStep<SO>,
    missing: UpdateStep<SO>,
    merged: Option<SO>,
    fresh: Option<SO>,
)
    requires
        call_ensures(DataStore::<SO>::apply_update, (Some(stored), update), step),
        call_ensures(DataStore::<SO>::apply_update, (None, update), missing),
        call_ensures(DataStore::<SO>::merge, (object, Some(stored)), merged),
        call_ensures(DataStore::<SO>::merge, (object, None), fresh),
    ensures
        missing is NotFound,
        step is Write <==> stored.spec_update(update).1,
        step is Unchanged <==> !stored.spec_update(update).1,
        step matches UpdateStep::Write(written) ==> written == stored.spec_update(update).0,
        fresh == Some(object),
        merged is Some <==> stored.spec_update(object.spec_to_update()).1,
        merged matches Some(written) ==> written == stored.spec_update(
            object.spec_to_update(),
        ).0,
{
}

/// A lookup gives what is in memory, knows what is missing where memory keeps everything, and otherwise reads
/// the object by the key of its id.
pub proof fn law_lookups_read_what_memory_does_not_know<SO: StorableObject>(
    store: &mut DataStore<SO>,
    id: SO::Id,
    step: Lookup<SO>,
)
    requires
        old(store).wf(),
        old(store).clock() < u64::MAX,
        call_ensures(DataStore::<SO>::lookup, (store, &id), step),
    ensures
        step is Cached <==> old(store)@.get(id) is Some,
        step matches Lookup::Cached(object) ==> old(store)@.get(id) == Some(object),
        step is Absent <==> old(store)@.get(id) is None && old(store)@.keeps_all(),
        step matches Lookup::Read(key) ==> key@ == id.spec_encode(),
        final(store).namespaces() == old(store).namespaces(),
{
}

/// Memory takes in what was persisted and nothing else: a write that failed leaves it, and so does a removal
/// that failed.
pub proof fn law_memory_follows_what_was_persisted<SO: StorableObject>(
    written: &mut DataStore<SO>,
    object: SO,
    done: Result<(), Error>,
    unwritten: &mut DataStore<SO>,
    kind: IoErrorKind,
    failed: Result<(), Error>,
    removed: &mut DataStore<SO>,
    id: SO::Id,
    gone: Result<(), Error>,
)
    requires
        old(written).wf(),
        old(written).clock() < u64::MAX,
        old(unwritten).wf(),
        old(unwritten).clock() < u64::MAX,
        old(removed).wf(),
        old(written)@.valid(),
        old(removed)@.valid(),
        call_ensures(DataStore::<SO>::finish_write, (written, object, Ok(())), done),
        call_ensures(DataStore::<SO>::finish_write, (unwritten, object, Err(kind)), failed),
        call_ensures(DataStore::<SO>::finish_remove, (removed, &id, Ok(())), gone),
    ensures
        done is Ok,
        final(written)@.get(object.spec_id()) == Some(object),
        failed == Err::<(), Error>(Error::PersistenceFailed),
        *final(unwritten) == *old(unwritten),
        gone is Ok,
        final(removed)@.get(id) is None,
{
    let (before, id2) = (old(written)@, object.spec_id());
    match before {
        CacheView::KeepAll(_) => {},
        CacheView::Lru(s, n) => {
            let t = cache::touched(s, id2, object);
            cache::lemma_touched(s, id2, object);
            cache::lemma_newest(t, n);
            cache::lemma_find(cache::newest(t, n), id2);
            assert(cache::newest(t, n)[cache::newest(t, n).len() - 1].0 == id2);
        },
    }
    cache::law_a_removal_forgets_one_object(old(removed)@, id, id);
}

} // verus!
