//! The part of an object store that is kept in memory.
use crate::data_store::{CacheLimit, StorableObject};
use crate::vec_map::{MapKey, VecMap};
use vstd::prelude::*;

verus! {

/// A list of pairs without those of one id.
pub open spec fn without<Id, SO>(s: Seq<(Id, SO)>, id: Id) -> Seq<(Id, SO)>
    decreases s.len(),
{
    if s.len() == 0 {
        s
    } else if s.last().0 == id {
        without(s.drop_last(), id)
    } else {
        without(s.drop_last(), id).push(s.last())
    }
}

/// A list of pairs with one of them moved or added to the end.
pub open spec fn touched<Id, SO>(s: Seq<(Id, SO)>, id: Id, object: SO) -> Seq<(Id, SO)> {
    without(s, id).push((id, object))
}

/// The last `n` pairs of a list, or all of it if it is no longer than that.
pub open spec fn newest<Id, SO>(s: Seq<(Id, SO)>, n: nat) -> Seq<(Id, SO)> {
    if s.len() <= n {
        s
    } else {
        s.subrange(s.len() - n, s.len() as int)
    }
}

/// The object of an id in a list of pairs, the last one if there are several.
pub open spec fn find<Id, SO>(s: Seq<(Id, SO)>, id: Id) -> Option<SO>
    decreases s.len(),
{
    if s.len() == 0 {
        None
    } else if s.last().0 == id {
        Some(s.last().1)
    } else {
        find(s.drop_last(), id)
    }
}

/// No two pairs of a list have the same id.
pub open spec fn distinct_ids<Id, SO>(s: Seq<(Id, SO)>) -> bool {
    forall|i: int, j: int|
        #![trigger s[i], s[j]]
        0 <= i < j < s.len() ==> s[i].0 != s[j].0
}

/// Dropping an id that is not there changes nothing.
pub(crate) proof fn lemma_without_absent<Id, SO>(s: Seq<(Id, SO)>, id: Id)
    requires
        forall|i: int| 0 <= i < s.len() ==> (#[trigger] s[i]).0 != id,
    ensures
        without(s, id) == s,
    decreases s.len(),
{
    if s.len() > 0 {
        let front = s.drop_last();
        assert forall|i: int| 0 <= i < front.len() implies (#[trigger] front[i]).0 != id by {
            assert(front[i] == s[i]);
        }
        lemma_without_absent(front, id);
        assert(s[s.len() - 1].0 != id);
        assert(front.push(s.last()) =~= s);
    }
}

proof fn lemma_without_present<Id, SO>(s: Seq<(Id, SO)>, k: int)
    requires
        0 <= k < s.len(),
        distinct_ids(s),
    ensures
        without(s, s[k].0) == s.remove(k),
    decreases s.len(),
{
    let id = s[k].0;
    let front = s.drop_last();
    assert forall|i: int, j: int|
        #![trigger front[i], front[j]]
        0 <= i < j < front.len() implies front[i].0 != front[j].0 by {
        assert(front[i] == s[i] && front[j] == s[j]);
    }
    if k == s.len() - 1 {
        assert forall|i: int| 0 <= i < front.len() implies (#[trigger] front[i]).0 != id by {
            assert(front[i] == s[i]);
        }
        lemma_without_absent(front, id);
        assert(s.remove(k) =~= front);
    } else {
        assert(s[k].0 != s[s.len() - 1].0);
        assert(front[k] == s[k]);
        lemma_without_present(front, k);
        assert(s.remove(k) =~= front.remove(k).push(s.last()));
    }
}

/// A least-recently-used cache of at most `capacity` objects.
///
/// Recency is tracked with a monotonically increasing sequence number per entry, mirrored in
/// `recency` so that the least recently used entry is the first one in it.
pub struct LruCache<SO: StorableObject> {
    capacity: usize,
    entries: VecMap<SO::Id, (SO, u64)>,
    recency: Vec<(u64, SO::Id)>,
    next_seq: u64,
}

impl<SO: StorableObject> LruCache<SO> {
    /// The two indices agree with each other: every object is listed once by recency, under the
    /// sequence number that it carries, and no sequence number is yet to be handed out.
    pub closed spec fn wf(self) -> bool {
        &&& self.synced()
        &&& self.recency@.len() <= self.capacity
    }

    spec fn synced(self) -> bool {
        &&& self.capacity > 0
        &&& self.entries@.dom().finite()
        &&& self.entries@.len() == self.recency@.len()
        &&& forall|i: int, j: int|
            #![trigger self.recency@[i], self.recency@[j]]
            0 <= i < j < self.recency@.len() ==> self.recency@[i].0 < self.recency@[j].0
        &&& forall|i: int|
            #![trigger self.recency@[i]]
            0 <= i < self.recency@.len() ==> {
                &&& self.recency@[i].0 < self.next_seq
                &&& self.entries@.dom().contains(self.recency@[i].1)
                &&& self.entries@[self.recency@[i].1].1 == self.recency@[i].0
            }
        &&& forall|id: SO::Id| #[trigger]
            self.entries@.dom().contains(id) ==> exists|i: int|
                0 <= i < self.recency@.len() && (#[trigger] self.recency@[i]).1 == id
    }

    /// The most objects the cache will hold.
    pub closed spec fn limit(self) -> nat {
        self.capacity as nat
    }

    /// How many sequence numbers have been handed out.
    pub closed spec fn clock(self) -> nat {
        self.next_seq as nat
    }

    /// The objects with their ids, from the least to the most recently used one.
    pub closed spec fn order(self) -> Seq<(SO::Id, SO)> {
        Seq::new(
            self.recency@.len(),
            |i: int| (self.recency@[i].1, self.entries@[self.recency@[i].1].0),
        )
    }

    /// The cached objects by id.
    pub closed spec fn cached(self) -> Map<SO::Id, SO> {
        Map::new(|id: SO::Id| self.entries@.dom().contains(id), |id: SO::Id| self.entries@[id].0)
    }

    /// The cache lists each of its objects once, and no more of them than its limit.
    pub proof fn law_indices_in_sync(self)
        requires
            self.wf(),
        ensures
            distinct_ids(self.order()),
            self.order().len() == self.cached().len(),
            self.cached().dom().finite(),
            0 < self.limit(),
            self.order().len() <= self.limit(),
            forall|i: int|
                #![trigger self.order()[i]]
                0 <= i < self.order().len() ==> self.cached().dom().contains(self.order()[i].0)
                    && self.cached()[self.order()[i].0] == self.order()[i].1,
            forall|id: SO::Id| #[trigger]
                self.cached().dom().contains(id) ==> exists|i: int|
                    0 <= i < self.order().len() && (#[trigger] self.order()[i]).0 == id,
    {
        self.lemma_synced();
    }

    proof fn lemma_synced(self)
        requires
            self.synced(),
        ensures
            distinct_ids(self.order()),
            self.order().len() == self.cached().len(),
            self.cached().dom() == self.entries@.dom(),
            self.cached().dom().finite(),
            forall|i: int|
                #![trigger self.order()[i]]
                0 <= i < self.order().len() ==> self.cached().dom().contains(self.order()[i].0)
                    && self.cached()[self.order()[i].0] == self.order()[i].1,
            forall|id: SO::Id| #[trigger]
                self.cached().dom().contains(id) ==> exists|i: int|
                    0 <= i < self.order().len() && (#[trigger] self.order()[i]).0 == id,
    {
        let s = self.order();
        assert(self.cached().dom() =~= self.entries@.dom());
        assert forall|i: int, j: int|
            #![trigger s[i], s[j]]
            0 <= i < j < s.len() implies s[i].0 != s[j].0 by {
            assert(self.recency@[i].0 < self.recency@[j].0);
        }
        assert forall|id: SO::Id| #[trigger]
            self.cached().dom().contains(id) implies exists|i: int|
            0 <= i < s.len() && (#[trigger] s[i]).0 == id by {
            let i = choose|i: int|
                0 <= i < self.recency@.len() && (#[trigger] self.recency@[i]).1 == id;
            assert(s[i].0 == id);
        }
    }

    pub fn new(capacity: usize) -> (lru: Self)
        requires
            capacity > 0,
        ensures
            lru.wf(),
            lru.limit() == capacity,
            lru.clock() == 0,
            lru.order() == Seq::<(SO::Id, SO)>::empty(),
            lru.cached() == Map::<SO::Id, SO>::empty(),
    {
        let lru = LruCache {
            capacity,
            entries: VecMap::new(),
            recency: Vec::new(),
            next_seq: 0,
        };
        assert(lru.order() =~= Seq::<(SO::Id, SO)>::empty());
        assert(lru.cached() =~= Map::<SO::Id, SO>::empty());
        lru
    }

    /// Hands out the next sequence number.
    fn take_seq(&mut self) -> (seq: u64)
        requires
            old(self).next_seq < u64::MAX,
        ensures
            seq == old(self).next_seq,
            *final(self) == (LruCache { next_seq: (old(self).next_seq + 1) as u64, ..*old(self) }),
    {
        let seq: u64 = self.next_seq;
        self.next_seq += 1;
        seq
    }

    /// Takes the entry of a sequence number off the recency list.
    fn forget_seq(&mut self, seq: u64, Ghost(k): Ghost<int>)
        requires
            0 <= k < old(self).recency@.len(),
            old(self).recency@[k].0 == seq,
            forall|i: int, j: int|
                #![trigger old(self).recency@[i], old(self).recency@[j]]
                0 <= i < j < old(self).recency@.len() ==> old(self).recency@[i].0 < old(
                    self,
                ).recency@[j].0,
        ensures
            final(self).recency@ == old(self).recency@.remove(k),
            final(self).capacity == old(self).capacity,
            final(self).entries == old(self).entries,
            final(self).next_seq == old(self).next_seq,
    {
        let n: usize = self.recency.len();
        let mut i: usize = 0;
        while self.recency[i].0 != seq
            invariant
                *self == *old(self),
                n == self.recency@.len(),
                i <= k < self.recency@.len(),
                self.recency@[k].0 == seq,
            decreases k - i,
        {
            i += 1;
        }
        assert(i == k) by {
            if i < k {
                assert(self.recency@[i as int].0 < self.recency@[k].0);
            }
        }
        let _ = self.recency.remove(i);
    }

    pub fn insert(&mut self, id: SO::Id, object: SO)
        requires
            old(self).wf(),
            old(self).clock() < u64::MAX,
        ensures
            final(self).wf(),
            final(self).limit() == old(self).limit(),
            final(self).clock() == old(self).clock() + 1,
            final(self).order() == newest(
                touched(old(self).order(), id, object),
                old(self).limit(),
            ),
    {
        proof {
            self.lemma_synced();
        }
        let ghost start = *self;
        let seq: u64 = self.take_seq();
        let id_copy = id.key_copy();
        let previous = self.entries.insert(id_copy, (object, seq));
        let ghost mut k: int = 0;
        match previous {
            Some((_, prev_seq)) => {
                proof {
                    k = choose|i: int|
                        0 <= i < start.recency@.len() && (#[trigger] start.recency@[i]).1 == id;
                    lemma_without_present(start.order(), k);
                    assert(start.order()[k].0 == id);
                }
                self.forget_seq(prev_seq, Ghost(k));
            },
            None => {
                proof {
                    assert forall|i: int| 0 <= i < start.order().len() implies (
                    #[trigger] start.order()[i]).0 != id by {
                        assert(start.cached().dom().contains(start.order()[i].0));
                    }
                    lemma_without_absent(start.order(), id);
                }
            },
        }
        let ghost kept = self.recency@;
        self.recency.push((seq, id));
        proof {
            assert(kept == (if previous is Some {
                start.recency@.remove(k)
            } else {
                start.recency@
            }));
            assert(self.entries@ == start.entries@.insert(id, (object, seq)));
            assert forall|i: int| 0 <= i < kept.len() implies {
                &&& (#[trigger] kept[i]).0 < seq
                &&& kept[i].1 != id
                &&& start.entries@.dom().contains(kept[i].1)
                &&& start.entries@[kept[i].1].1 == kept[i].0
            } by {
                let i0 = if previous is Some && i >= k {
                    i + 1
                } else {
                    i
                };
                assert(kept[i] == start.recency@[i0]);
                if previous is Some {
                    assert(start.order()[i0].0 != start.order()[k].0);
                } else {
                    assert(start.cached().dom().contains(start.recency@[i0].1));
                }
            }
            assert forall|i: int, j: int|
                #![trigger self.recency@[i], self.recency@[j]]
                0 <= i < j < self.recency@.len() implies self.recency@[i].0 < self.recency@[j].0 by {
                assert(self.recency@[i] == kept[i]);
                if j < kept.len() {
                    let i0 = if previous is Some && i >= k {
                        i + 1
                    } else {
                        i
                    };
                    let j0 = if previous is Some && j >= k {
                        j + 1
                    } else {
                        j
                    };
                    assert(kept[i] == start.recency@[i0] && kept[j] == start.recency@[j0]);
                }
            }
            assert forall|x: SO::Id| #[trigger] self.entries@.dom().contains(x) implies exists|i: int|
                0 <= i < self.recency@.len() && (#[trigger] self.recency@[i]).1 == x by {
                if x == id {
                    assert(self.recency@[kept.len() as int].1 == x);
                } else {
                    assert(start.entries@.dom().contains(x));
                    let i0 = choose|i: int|
                        0 <= i < start.recency@.len() && (#[trigger] start.recency@[i]).1 == x;
                    let i = if previous is Some && i0 > k {
                        i0 - 1
                    } else {
                        i0
                    };
                    assert(self.recency@[i] == start.recency@[i0]);
                }
            }
            assert(self.synced());
            let expected = touched(start.order(), id, object);
            assert(self.order() =~= expected) by {
                assert forall|i: int| 0 <= i < kept.len() implies self.order()[i] == expected[i] by {
                    assert(self.recency@[i] == kept[i]);
                    let i0 = if previous is Some && i >= k {
                        i + 1
                    } else {
                        i
                    };
                    assert(kept[i] == start.recency@[i0]);
                    assert(expected[i] == start.order()[i0]);
                }
            }
        }
        self.evict();
    }

    /// Drops least recently used objects until the limit is met.
    fn evict(&mut self)
        requires
            old(self).synced(),
        ensures
            final(self).wf(),
            final(self).capacity == old(self).capacity,
            final(self).next_seq == old(self).next_seq,
            final(self).order() == newest(old(self).order(), old(self).capacity as nat),
    {
        let ghost start = *self;
        assert(self.order() =~= start.order().subrange(0, start.order().len() as int));
        while self.entries.len() > self.capacity
            invariant
                self.synced(),
                self.capacity == start.capacity,
                self.next_seq == start.next_seq,
                start.order().len() <= start.capacity ==> *self == start,
                start.order().len() > start.capacity ==> start.capacity <= self.order().len()
                    <= start.order().len(),
                self.order() == start.order().subrange(
                    start.order().len() - self.order().len(),
                    start.order().len() as int,
                ),
            decreases self.recency@.len(),
        {
            proof {
                self.lemma_synced();
            }
            let ghost before = *self;
            let (seq, evicted_id) = self.recency.remove(0);
            let _ = self.entries.remove(&evicted_id);
            proof {
                let rec = before.recency@;
                assert(self.recency@ =~= rec.subrange(1, rec.len() as int));
                assert forall|i: int| 0 <= i < self.recency@.len() implies {
                    &&& #[trigger] self.recency@[i] == rec[i + 1]
                    &&& self.recency@[i].1 != evicted_id
                } by {
                    assert(before.order()[0].0 != before.order()[i + 1].0);
                }
                assert forall|i: int, j: int|
                    #![trigger self.recency@[i], self.recency@[j]]
                    0 <= i < j < self.recency@.len() implies self.recency@[i].0
                    < self.recency@[j].0 by {
                    assert(rec[i + 1].0 < rec[j + 1].0);
                }
                assert forall|x: SO::Id| #[trigger]
                    self.entries@.dom().contains(x) implies exists|i: int|
                    0 <= i < self.recency@.len() && (#[trigger] self.recency@[i]).1 == x by {
                    assert(before.entries@.dom().contains(x));
                    let i0 = choose|i: int| 0 <= i < rec.len() && (#[trigger] rec[i]).1 == x;
                    assert(i0 != 0);
                    assert(self.recency@[i0 - 1] == rec[i0]);
                }
                assert(self.synced());
                let shift = start.order().len() - before.order().len();
                assert(self.order() =~= start.order().subrange(
                    shift + 1,
                    start.order().len() as int,
                )) by {
                    assert forall|i: int| 0 <= i < self.order().len() implies self.order()[i]
                        == start.order()[shift + 1 + i] by {
                        assert(self.recency@[i] == rec[i + 1]);
                        assert(self.order()[i] == before.order()[i + 1]);
                    }
                }
            }
        }
    }

    /// The object of an id, which becomes the most recently used one.
    pub fn get(&mut self, id: &SO::Id) -> (object: Option<SO>)
        requires
            old(self).wf(),
            old(self).clock() < u64::MAX,
        ensures
            final(self).wf(),
            final(self).limit() == old(self).limit(),
            final(self).clock() == old(self).clock() + 1,
            final(self).cached() == old(self).cached(),
            match object {
                Some(o) => {
                    &&& old(self).cached().dom().contains(*id)
                    &&& o == old(self).cached()[*id]
                    &&& final(self).order() == touched(old(self).order(), *id, o)
                },
                None => {
                    &&& !old(self).cached().dom().contains(*id)
                    &&& final(self).order() == old(self).order()
                },
            },
    {
        proof {
            self.lemma_synced();
        }
        let ghost start = *self;
        let seq: u64 = self.take_seq();
        let (object, prev_seq) = match self.entries.get(id) {
            None => {
                assert(self.order() =~= start.order());
                assert(self.cached() =~= start.cached());
                return None;
            },
            Some(entry) => (entry.0.duplicate(), entry.1),
        };
        let stored = object.duplicate();
        let _ = self.entries.insert(id.key_copy(), (stored, seq));
        let ghost k = choose|i: int|
            0 <= i < start.recency@.len() && (#[trigger] start.recency@[i]).1 == *id;
        proof {
            assert(start.entries@.dom().contains(*id));
            assert(start.order()[k].0 == *id);
            lemma_without_present(start.order(), k);
        }
        self.forget_seq(prev_seq, Ghost(k));
        let ghost kept = self.recency@;
        self.recency.push((seq, id.key_copy()));
        proof {
            assert(kept == start.recency@.remove(k));
            assert(self.entries@ == start.entries@.insert(*id, (object, seq)));
            assert(self.entries@.dom() =~= start.entries@.dom());
            assert forall|i: int| 0 <= i < kept.len() implies {
                &&& (#[trigger] kept[i]).0 < seq
                &&& kept[i].1 != *id
                &&& start.entries@.dom().contains(kept[i].1)
                &&& start.entries@[kept[i].1].1 == kept[i].0
            } by {
                let i0 = if i >= k {
                    i + 1
                } else {
                    i
                };
                assert(kept[i] == start.recency@[i0]);
                assert(start.order()[i0].0 != start.order()[k].0);
            }
            assert forall|i: int, j: int|
                #![trigger self.recency@[i], self.recency@[j]]
                0 <= i < j < self.recency@.len() implies self.recency@[i].0 < self.recency@[j].0 by {
                assert(self.recency@[i] == kept[i]);
                if j < kept.len() {
                    let i0 = if i >= k {
                        i + 1
                    } else {
                        i
                    };
                    let j0 = if j >= k {
                        j + 1
                    } else {
                        j
                    };
                    assert(kept[i] == start.recency@[i0] && kept[j] == start.recency@[j0]);
                }
            }
            assert forall|x: SO::Id| #[trigger] self.entries@.dom().contains(x) implies exists|i: int|
                0 <= i < self.recency@.len() && (#[trigger] self.recency@[i]).1 == x by {
                if x == *id {
                    assert(self.recency@[kept.len() as int].1 == x);
                } else {
                    assert(start.entries@.dom().contains(x));
                    let i0 = choose|i: int|
                        0 <= i < start.recency@.len() && (#[trigger] start.recency@[i]).1 == x;
                    let i = if i0 > k {
                        i0 - 1
                    } else {
                        i0
                    };
                    assert(self.recency@[i] == start.recency@[i0]);
                }
            }
            assert(self.synced());
            let expected = touched(start.order(), *id, object);
            assert(self.order() =~= expected) by {
                assert forall|i: int| 0 <= i < kept.len() implies self.order()[i] == expected[i] by {
                    assert(self.recency@[i] == kept[i]);
                    let i0 = if i >= k {
                        i + 1
                    } else {
                        i
                    };
                    assert(kept[i] == start.recency@[i0]);
                    assert(expected[i] == start.order()[i0]);
                }
            }
            assert(self.cached() =~= start.cached());
        }
        Some(object)
    }

    /// The object of an id, leaving the order of use alone.
    pub fn peek(&self, id: &SO::Id) -> (object: Option<SO>)
        ensures
            object == (if self.cached().dom().contains(*id) {
                Some(self.cached()[*id])
            } else {
                None
            }),
    {
        match self.entries.get(id) {
            Some(entry) => Some(entry.0.duplicate()),
            None => None,
        }
    }

    /// Whether an id is cached, leaving the order of use alone.
    pub fn contains(&self, id: &SO::Id) -> (found: bool)
        ensures
            found == self.cached().dom().contains(*id),
    {
        self.entries.contains_key(id)
    }

    /// The number of cached objects.
    pub fn len(&self) -> (n: usize)
        ensures
            n == self.cached().len(),
    {
        assert(self.cached().dom() =~= self.entries@.dom());
        self.entries.len()
    }

    /// The number of entries in the recency list.
    pub fn recency_len(&self) -> (n: usize)
        ensures
            n == self.order().len(),
    {
        self.recency.len()
    }

    pub fn remove(&mut self, id: &SO::Id)
        requires
            old(self).wf(),
        ensures
            final(self).wf(),
            final(self).limit() == old(self).limit(),
            final(self).clock() == old(self).clock(),
            final(self).order() == without(old(self).order(), *id),
            final(self).cached() == old(self).cached().remove(*id),
    {
        proof {
            self.lemma_synced();
        }
        let ghost start = *self;
        let removed = self.entries.remove(id);
        match removed {
            None => {
                proof {
                    assert forall|i: int| 0 <= i < start.order().len() implies (
                    #[trigger] start.order()[i]).0 != *id by {
                        assert(start.cached().dom().contains(start.order()[i].0));
                    }
                    lemma_without_absent(start.order(), *id);
                    assert(self.entries@ =~= start.entries@);
                    assert(self.order() =~= start.order());
                    assert(self.cached() =~= start.cached().remove(*id));
                }
            },
            Some((_, seq)) => {
                let ghost k = choose|i: int|
                    0 <= i < start.recency@.len() && (#[trigger] start.recency@[i]).1 == *id;
                proof {
                    assert(start.entries@.dom().contains(*id));
                    assert(start.order()[k].0 == *id);
                    lemma_without_present(start.order(), k);
                }
                self.forget_seq(seq, Ghost(k));
                proof {
                    let kept = self.recency@;
                    assert forall|i: int| 0 <= i < kept.len() implies {
                        let i0 = if i >= k {
                            i + 1
                        } else {
                            i
                        };
                        &&& #[trigger] kept[i] == start.recency@[i0]
                        &&& kept[i].1 != *id
                    } by {
                        let i0 = if i >= k {
                            i + 1
                        } else {
                            i
                        };
                        assert(start.order()[i0].0 != start.order()[k].0);
                    }
                    assert forall|i: int, j: int|
                        #![trigger kept[i], kept[j]]
                        0 <= i < j < kept.len() implies kept[i].0 < kept[j].0 by {
                        let i0 = if i >= k {
                            i + 1
                        } else {
                            i
                        };
                        let j0 = if j >= k {
                            j + 1
                        } else {
                            j
                        };
                        assert(start.recency@[i0].0 < start.recency@[j0].0);
                    }
                    assert forall|x: SO::Id| #[trigger]
                        self.entries@.dom().contains(x) implies exists|i: int|
                        0 <= i < kept.len() && (#[trigger] kept[i]).1 == x by {
                        assert(start.entries@.dom().contains(x));
                        let i0 = choose|i: int|
                            0 <= i < start.recency@.len() && (#[trigger] start.recency@[i]).1 == x;
                        let i = if i0 > k {
                            i0 - 1
                        } else {
                            i0
                        };
                        assert(kept[i] == start.recency@[i0]);
                    }
                    assert(self.synced());
                    assert(self.order() =~= start.order().remove(k)) by {
                        assert forall|i: int| 0 <= i < kept.len() implies self.order()[i]
                            == start.order().remove(k)[i] by {
                            assert(kept[i].1 != *id);
                        }
                    }
                    assert(self.cached() =~= start.cached().remove(*id));
                }
            },
        }
    }
}

/// What a cache holds: all objects by id, or some of them in order of use.
#[verifier::reject_recursive_types(Id)]
pub enum CacheView<Id, SO> {
    /// Every object of the namespace.
    KeepAll(Map<Id, SO>),
    /// The objects with their ids from the least to the most recently used one, and the most of
    /// them that may be held.
    Lru(Seq<(Id, SO)>, nat),
}

impl<Id, SO> CacheView<Id, SO> {
    /// Whether the cache holds every object of the namespace.
    pub open spec fn keeps_all(self) -> bool {
        self is KeepAll
    }

    /// The cached object of an id.
    pub open spec fn get(self, id: Id) -> Option<SO> {
        match self {
            CacheView::KeepAll(m) => if m.dom().contains(id) {
                Some(m[id])
            } else {
                None
            },
            CacheView::Lru(s, _) => find(s, id),
        }
    }

    /// The cache after its object of an id was used.
    pub open spec fn after_get(self, id: Id) -> Self {
        match self {
            CacheView::KeepAll(_) => self,
            CacheView::Lru(s, n) => match find(s, id) {
                Some(object) => CacheView::Lru(touched(s, id, object), n),
                None => self,
            },
        }
    }

    /// The cache after it took in an object: the least recently used ones make room for it.
    pub open spec fn after_insert(self, id: Id, object: SO) -> Self {
        match self {
            CacheView::KeepAll(m) => CacheView::KeepAll(m.insert(id, object)),
            CacheView::Lru(s, n) => CacheView::Lru(newest(touched(s, id, object), n), n),
        }
    }

    /// The cache after it dropped the object of an id.
    pub open spec fn after_remove(self, id: Id) -> Self {
        match self {
            CacheView::KeepAll(m) => CacheView::KeepAll(m.remove(id)),
            CacheView::Lru(s, n) => CacheView::Lru(without(s, id), n),
        }
    }

    /// Every id is listed once, and there is room for at least one object but for no more than the
    /// limit.
    pub open spec fn valid(self) -> bool {
        match self {
            CacheView::KeepAll(m) => m.dom().finite(),
            CacheView::Lru(s, n) => distinct_ids(s) && 0 < n && s.len() <= n,
        }
    }

    /// The number of cached objects.
    pub open spec fn count(self) -> nat {
        match self {
            CacheView::KeepAll(m) => m.len(),
            CacheView::Lru(s, _) => s.len(),
        }
    }
}

/// The cache that results from handing it objects one after the other.
pub open spec fn seeded<SO: StorableObject>(
    empty: CacheView<SO::Id, SO>,
    objects: Seq<SO>,
) -> CacheView<SO::Id, SO>
    decreases objects.len(),
{
    if objects.len() == 0 {
        empty
    } else {
        seeded(empty, objects.drop_last()).after_insert(objects.last().spec_id(), objects.last())
    }
}

/// A cache without any objects.
pub open spec fn empty_cache<Id, SO>(limit: CacheLimit) -> CacheView<Id, SO> {
    match limit {
        CacheLimit::Unbounded => CacheView::KeepAll(Map::empty()),
        CacheLimit::Bounded(n) => CacheView::Lru(Seq::empty(), n as nat),
    }
}

pub(crate) proof fn lemma_find<Id, SO>(s: Seq<(Id, SO)>, id: Id)
    requires
        distinct_ids(s),
    ensures
        forall|i: int|
            #![trigger s[i]]
            0 <= i < s.len() && s[i].0 == id ==> find(s, id) == Some(s[i].1),
        find(s, id) is Some ==> exists|i: int| 0 <= i < s.len() && (#[trigger] s[i]).0 == id,
    decreases s.len(),
{
    if s.len() > 0 {
        let front = s.drop_last();
        assert forall|i: int, j: int|
            #![trigger front[i], front[j]]
            0 <= i < j < front.len() implies front[i].0 != front[j].0 by {
            assert(front[i] == s[i] && front[j] == s[j]);
        }
        lemma_find(front, id);
        assert forall|i: int|
            #![trigger s[i]]
            0 <= i < s.len() && s[i].0 == id implies find(s, id) == Some(s[i].1) by {
            if i < front.len() {
                assert(front[i] == s[i]);
                assert(s[i].0 != s[s.len() - 1].0);
            }
        }
        if find(s, id) is Some {
            if s.last().0 == id {
                assert(s[s.len() - 1].0 == id);
            } else {
                let i = choose|i: int| 0 <= i < front.len() && (#[trigger] front[i]).0 == id;
                assert(s[i] == front[i]);
            }
        }
    }
}

/// What is left after dropping an id: its pairs, in order, without that id.
pub(crate) proof fn lemma_without<Id, SO>(s: Seq<(Id, SO)>, id: Id)
    requires
        distinct_ids(s),
    ensures
        distinct_ids(without(s, id)),
        without(s, id).len() <= s.len(),
        find(s, id) is Some ==> without(s, id).len() == s.len() - 1,
        forall|i: int|
            #![trigger without(s, id)[i]]
            0 <= i < without(s, id).len() ==> without(s, id)[i].0 != id && s.contains(
                without(s, id)[i],
            ),
        forall|x: Id| x != id ==> #[trigger] find(without(s, id), x) == find(s, x),
        find(without(s, id), id) is None,
{
    lemma_find(s, id);
    let w = without(s, id);
    if find(s, id) is Some {
        let k = choose|i: int| 0 <= i < s.len() && (#[trigger] s[i]).0 == id;
        lemma_without_present(s, k);
        assert forall|i: int| 0 <= i < w.len() implies (#[trigger] w[i]).0 != id && s.contains(
            w[i],
        ) by {
            let i0 = if i >= k {
                i + 1
            } else {
                i
            };
            assert(w[i] == s[i0]);
            if i0 < k {
                assert(s[i0].0 != s[k].0);
            } else {
                assert(s[k].0 != s[i0].0);
            }
        }
        assert forall|i: int, j: int|
            #![trigger w[i], w[j]]
            0 <= i < j < w.len() implies w[i].0 != w[j].0 by {
            let i0 = if i >= k {
                i + 1
            } else {
                i
            };
            let j0 = if j >= k {
                j + 1
            } else {
                j
            };
            assert(w[i] == s[i0] && w[j] == s[j0]);
        }
    } else {
        assert forall|i: int| 0 <= i < s.len() implies (#[trigger] s[i]).0 != id by {}
        lemma_without_absent(s, id);
        assert forall|i: int| 0 <= i < w.len() implies (#[trigger] w[i]).0 != id && s.contains(
            w[i],
        ) by {
            assert(s[i] == w[i]);
        }
    }
    assert forall|x: Id| x != id implies #[trigger] find(w, x) == find(s, x) by {
        lemma_find(s, x);
        lemma_find(w, x);
        if find(w, x) is Some {
            let i = choose|i: int| 0 <= i < w.len() && (#[trigger] w[i]).0 == x;
            assert(s.contains(w[i]));
            let j = choose|j: int| 0 <= j < s.len() && s[j] == w[i];
            assert(s[j].0 == x);
        }
        if find(s, x) is Some {
            let j = choose|j: int| 0 <= j < s.len() && (#[trigger] s[j]).0 == x;
            if find(s, id) is Some {
                let k = choose|i: int| 0 <= i < s.len() && (#[trigger] s[i]).0 == id;
                lemma_without_present(s, k);
                let i = if j > k {
                    j - 1
                } else {
                    j
                };
                assert(w[i] == s[j]);
            } else {
                assert(w[j].0 == x);
            }
        }
    }
    lemma_find(w, id);
    if find(w, id) is Some {
        let i = choose|i: int| 0 <= i < w.len() && (#[trigger] w[i]).0 == id;
        assert(w[i].0 != id);
    }
}

/// What a list holds after one of its pairs was moved or added to the end.
pub(crate) proof fn lemma_touched<Id, SO>(s: Seq<(Id, SO)>, id: Id, object: SO)
    requires
        distinct_ids(s),
    ensures
        distinct_ids(touched(s, id, object)),
        find(touched(s, id, object), id) == Some(object),
        forall|x: Id| x != id ==> #[trigger] find(touched(s, id, object), x) == find(s, x),
        touched(s, id, object).len() == (if find(s, id) is Some {
            s.len()
        } else {
            s.len() + 1
        }),
{
    lemma_without(s, id);
    lemma_find(s, id);
    let w = without(s, id);
    let t = touched(s, id, object);
    assert(t.drop_last() =~= w);
    assert forall|i: int, j: int|
        #![trigger t[i], t[j]]
        0 <= i < j < t.len() implies t[i].0 != t[j].0 by {
        assert(t[i] == w[i]);
        if j < w.len() {
            assert(t[j] == w[j]);
        }
    }
    assert forall|x: Id| x != id implies #[trigger] find(t, x) == find(s, x) by {
        assert(find(t, x) == find(w, x));
    }
    if find(s, id) is None {
        assert forall|i: int| 0 <= i < s.len() implies (#[trigger] s[i]).0 != id by {}
        lemma_without_absent(s, id);
    }
}

/// The last pairs of a list agree with the list, and hold its last pair.
pub(crate) proof fn lemma_newest<Id, SO>(s: Seq<(Id, SO)>, n: nat)
    requires
        distinct_ids(s),
    ensures
        distinct_ids(newest(s, n)),
        newest(s, n).len() == (if s.len() <= n {
            s.len()
        } else {
            n
        }),
        forall|x: Id| #[trigger] find(newest(s, n), x) is Some ==> find(newest(s, n), x) == find(s, x),
        s.len() > 0 && n > 0 ==> newest(s, n).last() == s.last() && newest(s, n).len() > 0,
        s.len() <= n + 1 ==> forall|x: Id|
            s.len() > 0 && x != s[0].0 ==> #[trigger] find(newest(s, n), x) == find(s, x),
{
    let t = newest(s, n);
    if s.len() > n {
        let d = s.len() - n;
        assert forall|i: int, j: int|
            #![trigger t[i], t[j]]
            0 <= i < j < t.len() implies t[i].0 != t[j].0 by {
            assert(t[i] == s[i + d] && t[j] == s[j + d]);
        }
        assert forall|x: Id| #[trigger] find(t, x) is Some implies find(t, x) == find(s, x) by {
            lemma_find(t, x);
            lemma_find(s, x);
            let i = choose|i: int| 0 <= i < t.len() && (#[trigger] t[i]).0 == x;
            assert(t[i] == s[i + d]);
        }
        if s.len() <= n + 1 {
            assert forall|x: Id| x != s[0].0 implies #[trigger] find(t, x) == find(s, x) by {
                lemma_find(t, x);
                lemma_find(s, x);
                if find(s, x) is Some {
                    let j = choose|j: int| 0 <= j < s.len() && (#[trigger] s[j]).0 == x;
                    assert(t[j - 1] == s[j]);
                }
            }
        }
    }
}

impl<SO: StorableObject> LruCache<SO> {
    /// The cache seen through its order of use.
    pub open spec fn as_cache(self) -> CacheView<SO::Id, SO> {
        CacheView::Lru(self.order(), self.limit())
    }

    proof fn lemma_as_cache(self)
        requires
            self.wf(),
        ensures
            self.as_cache().valid(),
            forall|id: SO::Id|
                self.cached().dom().contains(id) <==> #[trigger] find(self.order(), id) is Some,
            forall|id: SO::Id|
                #![trigger find(self.order(), id)]
                self.cached().dom().contains(id) ==> find(self.order(), id) == Some(
                    self.cached()[id],
                ),
    {
        self.law_indices_in_sync();
        assert forall|id: SO::Id|
            #![trigger find(self.order(), id)]
            {
                &&& self.cached().dom().contains(id) <==> find(self.order(), id) is Some
                &&& self.cached().dom().contains(id) ==> find(self.order(), id) == Some(
                    self.cached()[id],
                )
            } by {
            lemma_find(self.order(), id);
            if find(self.order(), id) is Some {
                let i = choose|i: int|
                    0 <= i < self.order().len() && (#[trigger] self.order()[i]).0 == id;
                assert(self.cached().dom().contains(self.order()[i].0));
            }
        }
    }
}

/// `matching` holds, under the ids `ids`, the cached objects for which `f` said yes and no others.
pub open spec fn filtered<Id, SO, F: Fn(&SO) -> bool>(
    cache: CacheView<Id, SO>,
    f: F,
    ids: Seq<Id>,
    matching: Seq<SO>,
) -> bool {
    &&& ids.no_duplicates()
    &&& ids.len() == matching.len()
    &&& forall|j: int| 0 <= j < ids.len() ==> cache.get(#[trigger] ids[j]) == Some(matching[j])
    &&& forall|id: Id|
        (#[trigger] cache.get(id)) is Some ==> if ids.contains(id) {
            call_ensures(f, (&cache.get(id)->0,), true)
        } else {
            call_ensures(f, (&cache.get(id)->0,), false)
        }
}

/// The part of `pairs` for which `f` said yes.
spec fn collected<Id, SO, F: Fn(&SO) -> bool>(
    pairs: Seq<(Id, SO)>,
    f: F,
    ids: Seq<Id>,
    matching: Seq<SO>,
) -> bool {
    &&& ids.no_duplicates()
    &&& ids.len() == matching.len()
    &&& forall|j: int| 0 <= j < ids.len() ==> #[trigger] pairs.contains((ids[j], matching[j]))
    &&& forall|k: int|
        #![trigger pairs[k]]
        0 <= k < pairs.len() ==> if ids.contains(pairs[k].0) {
            call_ensures(f, (&pairs[k].1,), true)
        } else {
            call_ensures(f, (&pairs[k].1,), false)
        }
}

proof fn lemma_collect<Id, SO, F: Fn(&SO) -> bool>(
    pairs: Seq<(Id, SO)>,
    i: int,
    f: F,
    ids: Seq<Id>,
    matching: Seq<SO>,
    hit: bool,
)
    requires
        0 <= i < pairs.len(),
        distinct_ids(pairs),
        collected(pairs.subrange(0, i), f, ids, matching),
        call_ensures(f, (&pairs[i].1,), hit),
    ensures
        hit ==> collected(
            pairs.subrange(0, i + 1),
            f,
            ids.push(pairs[i].0),
            matching.push(pairs[i].1),
        ),
        !hit ==> collected(pairs.subrange(0, i + 1), f, ids, matching),
{
    let prev = pairs.subrange(0, i);
    let next = pairs.subrange(0, i + 1);
    assert(!ids.contains(pairs[i].0)) by {
        if ids.contains(pairs[i].0) {
            let j = choose|j: int| 0 <= j < ids.len() && ids[j] == pairs[i].0;
            assert(prev.contains((ids[j], matching[j])));
            let k = choose|k: int| 0 <= k < prev.len() && prev[k] == (ids[j], matching[j]);
            assert(pairs[k].0 == pairs[i].0);
        }
    }
    let ids2 = if hit {
        ids.push(pairs[i].0)
    } else {
        ids
    };
    let matching2 = if hit {
        matching.push(pairs[i].1)
    } else {
        matching
    };
    assert forall|j: int| 0 <= j < ids2.len() implies #[trigger] next.contains(
        (ids2[j], matching2[j]),
    ) by {
        if j < ids.len() {
            assert(prev.contains((ids[j], matching[j])));
            let k = choose|k: int| 0 <= k < prev.len() && prev[k] == (ids[j], matching[j]);
            assert(next[k] == (ids2[j], matching2[j]));
        } else {
            assert(next[i] == (ids2[j], matching2[j]));
        }
    }
    assert forall|k: int|
        #![trigger next[k]]
        0 <= k < next.len() implies if ids2.contains(next[k].0) {
        call_ensures(f, (&next[k].1,), true)
    } else {
        call_ensures(f, (&next[k].1,), false)
    } by {
        if k < i {
            assert(next[k] == prev[k]);
            assert(pairs[k].0 != pairs[i].0);
            if ids.contains(prev[k].0) {
                let j = choose|j: int| 0 <= j < ids.len() && ids[j] == prev[k].0;
                assert(ids2[j] == prev[k].0);
            }
            if ids2.contains(next[k].0) {
                let j = choose|j: int| 0 <= j < ids2.len() && ids2[j] == next[k].0;
                assert(ids[j] == next[k].0);
            }
        } else if hit {
            assert(ids2[ids.len() as int] == next[k].0);
        }
    }
}

impl<SO: StorableObject> LruCache<SO> {
    /// The cached objects matching `f`, in no particular order.
    pub fn filter<F: Fn(&SO) -> bool>(&self, f: F) -> (matching: Vec<SO>)
        requires
            self.wf(),
            forall|object: &SO| #[trigger] call_requires(f, (object,)),
        ensures
            exists|ids: Seq<SO::Id>| #[trigger] filtered(self.as_cache(), f, ids, matching@),
    {
        let n: usize = self.recency.len();
        let mut matching: Vec<SO> = Vec::new();
        let ghost mut ids: Seq<SO::Id> = Seq::empty();
        let ghost all = self.order();
        proof {
            self.lemma_as_cache();
        }
        let mut i: usize = 0;
        while i < n
            invariant
                i <= n,
                n == all.len(),
                n == self.recency@.len(),
                self.wf(),
                distinct_ids(all),
                all == self.order(),
                forall|object: &SO| #[trigger] call_requires(f, (object,)),
                collected(all.subrange(0, i as int), f, ids, matching@),
            decreases n - i,
        {
            let ghost before = (ids, matching@);
            assert(self.recency@[i as int].1 == all[i as int].0);
            let object = match self.entries.get(&self.recency[i].1) {
                Some(entry) => &entry.0,
                None => {
                    assert(false);
                    return matching;
                },
            };
            let hit = f(object);
            if hit {
                matching.push(object.duplicate());
                proof {
                    ids = ids.push(all[i as int].0);
                }
            }
            proof {
                lemma_collect(all, i as int, f, before.0, before.1, hit);
            }
            i += 1;
        }
        proof {
            assert(all.subrange(0, n as int) =~= all);
            let cache = self.as_cache();
            assert(filtered(cache, f, ids, matching@)) by {
                assert forall|id: SO::Id| (#[trigger] cache.get(id)) is Some implies {
                    if ids.contains(id) {
                        call_ensures(f, (&cache.get(id)->0,), true)
                    } else {
                        call_ensures(f, (&cache.get(id)->0,), false)
                    }
                } by {
                    lemma_find(all, id);
                    let k = choose|k: int| 0 <= k < all.len() && (#[trigger] all[k]).0 == id;
                    assert(cache.get(id) == Some(all[k].1));
                }
                assert forall|j: int| 0 <= j < ids.len() implies cache.get(#[trigger] ids[j])
                    == Some(matching@[j]) by {
                    assert(all.contains((ids[j], matching@[j])));
                    let k = choose|k: int| 0 <= k < all.len() && all[k] == (ids[j], matching@[j]);
                    lemma_find(all, ids[j]);
                    assert(all[k].0 == ids[j]);
                }
            }
        }
        matching
    }
}

/// The in-memory part of a [`DataStore`].
pub enum ObjectCache<SO: StorableObject> {
    KeepAll(VecMap<SO::Id, SO>),
    BoundedLru(LruCache<SO>),
}

impl<SO: StorableObject> View for ObjectCache<SO> {
    type V = CacheView<SO::Id, SO>;

    open spec fn view(&self) -> CacheView<SO::Id, SO> {
        match self {
            ObjectCache::KeepAll(objects) => CacheView::KeepAll(objects@),
            ObjectCache::BoundedLru(lru) => lru.as_cache(),
        }
    }
}

impl<SO: StorableObject> ObjectCache<SO> {
    pub open spec fn wf(self) -> bool {
        self matches ObjectCache::BoundedLru(lru) ==> lru.wf()
    }

    /// How many uses the cache has counted.
    pub open spec fn clock(self) -> nat {
        match self {
            ObjectCache::KeepAll(_) => 0,
            ObjectCache::BoundedLru(lru) => lru.clock(),
        }
    }

    /// Whether another use can be counted.
    pub fn can_count_use(&self) -> (can: bool)
        ensures
            can == (self.clock() < u64::MAX),
    {
        match self {
            ObjectCache::KeepAll(_) => true,
            ObjectCache::BoundedLru(lru) => lru.next_seq < u64::MAX,
        }
    }

    /// Seeds a cache with objects in ascending order of recency.
    pub fn new(cache_limit: CacheLimit, objects: Vec<SO>) -> (cache: Self)
        requires
            cache_limit.valid(),
        ensures
            cache.wf(),
            cache@ == seeded(empty_cache(cache_limit), objects@),
            cache.clock() <= objects@.len(),
    {
        let ghost all = objects@;
        let mut cache = match cache_limit {
            CacheLimit::Unbounded => ObjectCache::KeepAll(VecMap::new()),
            CacheLimit::Bounded(capacity) => ObjectCache::BoundedLru(LruCache::new(capacity)),
        };
        let n: usize = objects.len();
        let mut i: usize = 0;
        while i < n
            invariant
                i <= n,
                n == objects@.len(),
                objects@ == all,
                cache.wf(),
                cache.clock() <= i,
                cache@ == seeded(empty_cache(cache_limit), all.subrange(0, i as int)),
            decreases n - i,
        {
            let object = objects[i].duplicate();
            cache.insert(object.id(), object);
            assert(all.subrange(0, i + 1).drop_last() =~= all.subrange(0, i as int));
            i += 1;
        }
        assert(all.subrange(0, n as int) =~= all);
        cache
    }

    pub fn is_keep_all(&self) -> (keep_all: bool)
        ensures
            keep_all == self@.keeps_all(),
    {
        matches!(self, ObjectCache::KeepAll(_))
    }

    /// The cached object for `id`, which becomes the most recently used one.
    pub fn get(&mut self, id: &SO::Id) -> (object: Option<SO>)
        requires
            old(self).wf(),
            old(self).clock() < u64::MAX,
        ensures
            final(self).wf(),
            final(self).clock() <= old(self).clock() + 1,
            final(self)@ == old(self)@.after_get(*id),
            object == old(self)@.get(*id),
    {
        match self {
            ObjectCache::KeepAll(objects) => match objects.get(id) {
                Some(object) => Some(object.duplicate()),
                None => None,
            },
            ObjectCache::BoundedLru(lru) => {
                proof {
                    lru.lemma_as_cache();
                    let _ = find(lru.order(), *id);
                }
                lru.get(id)
            },
        }
    }

    /// The cached object for `id`, without marking it as most recently used.
    pub fn peek(&self, id: &SO::Id) -> (object: Option<SO>)
        requires
            self.wf(),
        ensures
            object == self@.get(*id),
    {
        match self {
            ObjectCache::KeepAll(objects) => match objects.get(id) {
                Some(object) => Some(object.duplicate()),
                None => None,
            },
            ObjectCache::BoundedLru(lru) => {
                proof {
                    lru.lemma_as_cache();
                }
                lru.peek(id)
            },
        }
    }

    /// Whether `id` is cached, without marking it as most recently used.
    pub fn contains(&self, id: &SO::Id) -> (found: bool)
        requires
            self.wf(),
        ensures
            found == (self@.get(*id) is Some),
    {
        match self {
            ObjectCache::KeepAll(objects) => objects.contains_key(id),
            ObjectCache::BoundedLru(lru) => {
                proof {
                    lru.lemma_as_cache();
                }
                lru.contains(id)
            },
        }
    }

    pub fn insert(&mut self, id: SO::Id, object: SO)
        requires
            old(self).wf(),
            old(self).clock() < u64::MAX,
        ensures
            final(self).wf(),
            final(self).clock() <= old(self).clock() + 1,
            final(self)@ == old(self)@.after_insert(id, object),
    {
        match self {
            ObjectCache::KeepAll(objects) => {
                let _ = objects.insert(id, object);
            },
            ObjectCache::BoundedLru(lru) => lru.insert(id, object),
        }
    }

    pub fn remove(&mut self, id: &SO::Id)
        requires
            old(self).wf(),
        ensures
            final(self).wf(),
            final(self).clock() == old(self).clock(),
            final(self)@ == old(self)@.after_remove(*id),
    {
        match self {
            ObjectCache::KeepAll(objects) => {
                let _ = objects.remove(id);
            },
            ObjectCache::BoundedLru(lru) => lru.remove(id),
        }
    }

    /// The *cached* objects matching `f`, which is only a complete listing of the namespace if
    /// [`Self::is_keep_all`].
    ///
    /// The objects come in no particular order.
    pub fn filter<F: Fn(&SO) -> bool>(&self, f: F) -> (matching: Vec<SO>)
        requires
            self.wf(),
            forall|object: &SO| #[trigger] call_requires(f, (object,)),
        ensures
            exists|ids: Seq<SO::Id>| #[trigger] filtered(self@, f, ids, matching@),
    {
        match self {
            ObjectCache::KeepAll(objects) => {
                let n: usize = objects.len();
                let mut matching: Vec<SO> = Vec::new();
                let ghost mut ids: Seq<SO::Id> = Seq::empty();
                let ghost all = objects.pairs();
                let mut i: usize = 0;
                while i < n
                    invariant
                        i <= n,
                        n == all.len(),
                        all == objects.pairs(),
                        objects.pairs_agree(),
                        forall|object: &SO| #[trigger] call_requires(f, (object,)),
                        collected(all.subrange(0, i as int), f, ids, matching@),
                    decreases n - i,
                {
                    let pair = objects.pair_at(i);
                    let ghost before = (ids, matching@);
                    let hit = f(&pair.1);
                    if hit {
                        matching.push(pair.1.duplicate());
                        proof {
                            ids = ids.push(pair.0);
                        }
                    }
                    proof {
                        lemma_collect(all, i as int, f, before.0, before.1, hit);
                    }
                    i += 1;
                }
                proof {
                    assert(all.subrange(0, n as int) =~= all);
                    assert(filtered(self@, f, ids, matching@)) by {
                        assert forall|id: SO::Id| self@.get(id) is Some implies {
                            if ids.contains(id) {
                                call_ensures(f, (&self@.get(id)->0,), true)
                            } else {
                                call_ensures(f, (&self@.get(id)->0,), false)
                            }
                        } by {
                            let k = choose|k: int| 0 <= k < all.len() && (#[trigger] all[k]).0 == id;
                            assert(objects@[all[k].0] == all[k].1);
                        }
                        assert forall|j: int| 0 <= j < ids.len() implies self@.get(
                            #[trigger] ids[j],
                        ) == Some(matching@[j]) by {
                            assert(all.contains((ids[j], matching@[j])));
                            let k = choose|k: int|
                                0 <= k < all.len() && all[k] == (ids[j], matching@[j]);
                            assert(all[k].0 == ids[j]);
                        }
                    }
                }
                matching
            },
            ObjectCache::BoundedLru(lru) => lru.filter(f),
        }
    }

    /// The number of cached objects.
    pub fn len(&self) -> (n: usize)
        requires
            self.wf(),
        ensures
            n == self@.count(),
            self@.valid(),
    {
        match self {
            ObjectCache::KeepAll(objects) => objects.len(),
            ObjectCache::BoundedLru(lru) => {
                proof {
                    lru.lemma_as_cache();
                    lru.law_indices_in_sync();
                }
                lru.len()
            },
        }
    }
}

/// Forgetting an object keeps all others, in their order.
pub proof fn law_forgetting_keeps_all_others<Id, SO>(s: Seq<(Id, SO)>, id: Id)
    ensures
        without(s, id) == s.filter(|entry: (Id, SO)| entry.0 != id),
    decreases s.len(),
{
    reveal(Seq::filter);
    if s.len() > 0 {
        law_forgetting_keeps_all_others(s.drop_last(), id);
    } else {
        assert(s =~= Seq::empty());
    }
}

/// An object that is used is the one that was used last from then on; all others keep their order among
/// themselves.
pub proof fn law_what_is_used_was_used_last<Id, SO>(s: Seq<(Id, SO)>, limit: nat, id: Id, object: SO)
    requires
        CacheView::Lru(s, limit).valid(),
    ensures
        CacheView::Lru(s, limit).get(id) == Some(object) ==> {
            &&& CacheView::Lru(s, limit).after_get(id) == CacheView::Lru(
                without(s, id).push((id, object)),
                limit,
            )
            &&& without(s, id).len() == s.len() - 1
        },
        CacheView::Lru(s, limit).get(id) is None ==> CacheView::Lru(s, limit).after_get(id)
            == CacheView::Lru(s, limit),
        CacheView::Lru(s, limit).after_insert(id, object) matches CacheView::Lru(after, n) && n
            == limit && after.len() > 0 && after.last() == (id, object),
{
    lemma_without(s, id);
    lemma_touched(s, id, object);
    lemma_newest(touched(s, id, object), limit);
}

/// Nothing is dropped as long as there is room: an object that is put in anew leaves all others, and so does
/// one that takes the place of its earlier state.
pub proof fn law_nothing_is_dropped_while_there_is_room<Id, SO>(
    s: Seq<(Id, SO)>,
    limit: nat,
    id: Id,
    object: SO,
    other: Id,
)
    requires
        CacheView::Lru(s, limit).valid(),
        s.len() < limit || CacheView::Lru(s, limit).get(id) is Some,
        other != id,
    ensures
        CacheView::Lru(s, limit).after_insert(id, object) == CacheView::Lru(
            without(s, id).push((id, object)),
            limit,
        ),
        CacheView::Lru(s, limit).after_insert(id, object).get(other) == CacheView::Lru(
            s,
            limit,
        ).get(other),
        CacheView::Lru(s, limit).after_insert(id, object).get(id) == Some(object),
{
    lemma_without(s, id);
    lemma_touched(s, id, object);
}

/// Of too many objects those stay that were used last.
pub proof fn law_the_newest_stay<Id, SO>(s: Seq<(Id, SO)>, n: nat, i: int)
    ensures
        s.len() <= n ==> newest(s, n) == s,
        s.len() > n ==> newest(s, n).len() == n,
        s.len() > n && 0 <= i < n ==> newest(s, n)[n - 1 - i] == s[s.len() - 1 - i],
{
}

/// A removal forgets one object, and leaves all others and the limit.
pub proof fn law_a_removal_forgets_one_object<Id, SO>(cache: CacheView<Id, SO>, id: Id, other: Id)
    requires
        cache.valid(),
    ensures
        cache.after_remove(id).get(id) is None,
        other != id ==> cache.after_remove(id).get(other) == cache.get(other),
        cache matches CacheView::Lru(_, limit) ==> (cache.after_remove(id) matches CacheView::Lru(
            _,
            after,
        ) && after == limit),
        cache.keeps_all() <==> cache.after_remove(id).keeps_all(),
{
    if cache is Lru {
        lemma_without(cache->Lru_0, id);
    }
}

/// An object is found exactly if it is listed, and as it is listed.
pub proof fn law_listed_objects_are_found<Id, SO>(
    s: Seq<(Id, SO)>,
    limit: nat,
    m: Map<Id, SO>,
    id: Id,
    i: int,
)
    requires
        CacheView::Lru(s, limit).valid(),
    ensures
        0 <= i < s.len() ==> CacheView::Lru(s, limit).get(s[i].0) == Some(s[i].1),
        CacheView::Lru(s, limit).get(id) is Some ==> exists|k: int|
            0 <= k < s.len() && (#[trigger] s[k]).0 == id,
        CacheView::<Id, SO>::KeepAll(m).get(id) is Some <==> m.dom().contains(id),
        m.dom().contains(id) ==> CacheView::<Id, SO>::KeepAll(m).get(id) == Some(m[id]),
        CacheView::<Id, SO>::KeepAll(m).keeps_all(),
        !CacheView::Lru(s, limit).keeps_all(),
        CacheView::Lru(s, limit).count() == s.len(),
        CacheView::<Id, SO>::KeepAll(m).count() == m.len(),
        s.len() <= limit && limit > 0,
        0 <= i < s.len() ==> forall|j: int| 0 <= j < i ==> (#[trigger] s[j]).0 != s[i].0,
{
    lemma_find(s, id);
    if 0 <= i < s.len() {
        lemma_find(s, s[i].0);
    }
}

/// A store begins with nothing but its limit, and takes in the objects that it is seeded with one after the
/// other, each under its own id.
pub proof fn law_stores_are_seeded_in_order<SO: StorableObject>(
    empty: CacheView<SO::Id, SO>,
    objects: Seq<SO>,
    object: SO,
    n: usize,
    id: SO::Id,
)
    ensures
        seeded(empty, objects.push(object)) == seeded(empty, objects).after_insert(
            object.spec_id(),
            object,
        ),
        seeded(empty, Seq::empty()) == empty,
        empty_cache::<SO::Id, SO>(CacheLimit::Unbounded).keeps_all(),
        empty_cache::<SO::Id, SO>(CacheLimit::Unbounded).get(id) is None,
        empty_cache::<SO::Id, SO>(CacheLimit::Bounded(n)) == CacheView::<SO::Id, SO>::Lru(
            Seq::empty(),
            n as nat,
        ),
        CacheLimit::Bounded(n).valid() <==> n > 0,
        CacheLimit::Unbounded.valid(),
{
    assert(objects.push(object).drop_last() =~= objects);
}

/// What a filter gives are objects of the cache that it holds of, and all that it does not hold of are left
/// out.
pub proof fn law_filters_give_what_they_hold_of<Id, SO, F: Fn(&SO) -> bool>(
    cache: CacheView<Id, SO>,
    f: F,
    ids: Seq<Id>,
    matching: Seq<SO>,
    j: int,
    id: Id,
)
    requires
        filtered(cache, f, ids, matching),
    ensures
        ids.len() == matching.len(),
        0 <= j < matching.len() ==> cache.get(ids[j]) == Some(matching[j]) && call_ensures(
            f,
            (&matching[j],),
            true,
        ),
        cache.get(id) is Some && !ids.contains(id) ==> call_ensures(f, (&cache.get(id)->0,), false),
        forall|i: int, k: int|
            #![trigger ids[i], ids[k]]
            0 <= i < k < ids.len() ==> ids[i] != ids[k],
{
    if 0 <= j < matching.len() {
        assert(cache.get(ids[j]) == Some(matching[j]));
        assert(ids.contains(ids[j]));
    }
}

} // verus!
