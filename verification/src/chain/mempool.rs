//! Following the mempool of a Bitcoin Core node.
use crate::transaction::Transaction;
use crate::types::Txid;
use crate::vec_map::VecMap;
use vstd::prelude::*;

verus! {

/// An entry of the mempool.
#[derive(Clone, Copy, Debug)]
pub struct MempoolEntry {
    /// The transaction id
    pub txid: Txid,
    /// Local time transaction entered pool in seconds since 1 Jan 1970 GMT
    pub time: u64,
    /// Block height when transaction entered pool
    pub height: u32,
}

/// What is known of the mempool.
pub struct MempoolCache {
    /// The latest time of an entry whose transaction was emitted.
    pub latest_mempool_timestamp: u64,
    /// The entries, by transaction.
    pub entries: VecMap<Txid, MempoolEntry>,
    /// The transactions that were fetched, each with the time of its entry.
    pub txs: VecMap<Txid, (Transaction, u64)>,
}

/// Keeps the pairs whose keys are in a list.
fn retain_listed<V>(map: VecMap<Txid, V>, txids: &Vec<Txid>) -> (kept: VecMap<Txid, V>)
    ensures
        kept@ == map@.restrict(txids@.to_set()),
{
    let mut map = map;
    let mut kept: VecMap<Txid, V> = VecMap::new();
    let mut i: usize = 0;
    let ghost all = map@;
    assert(kept@ =~= all.restrict(txids@.subrange(0, 0).to_set()));
    assert(map@ =~= all.remove_keys(txids@.subrange(0, 0).to_set()));
    while i < txids.len()
        invariant
            i <= txids@.len(),
            kept@ == all.restrict(txids@.subrange(0, i as int).to_set()),
            map@ == all.remove_keys(txids@.subrange(0, i as int).to_set()),
        decreases txids@.len() - i,
    {
        let txid = txids[i];
        let ghost listed = txids@.subrange(0, i as int);
        let ghost now = txids@.subrange(0, i + 1);
        proof {
            assert(now =~= listed.push(txid));
            assert forall|t: Txid| now.to_set().contains(t) <==> listed.to_set().contains(t) || t
                == txid by {
                if listed.contains(t) {
                    let j = choose|j: int| 0 <= j < listed.len() && listed[j] == t;
                    assert(now[j] == t);
                }
                if now.contains(t) {
                    let j = choose|j: int| 0 <= j < now.len() && now[j] == t;
                    if j < i {
                        assert(listed[j] == t);
                    }
                }
                assert(now[i as int] == txid);
            }
        }
        if let Some(value) = map.remove(&txid) {
            kept.insert(txid, value);
        }
        i += 1;
        assert(kept@ =~= all.restrict(now.to_set()));
        assert(map@ =~= all.remove_keys(now.to_set()));
    }
    assert(txids@.subrange(0, i as int) =~= txids@);
    kept
}

/// Whether a transaction of the mempool is to be emitted: those are not that were emitted before,
/// where blocks with ancestors of theirs were emitted too.
pub open spec fn to_emit(entry: MempoolEntry, prev_time: u64, best_processed_height: u32) -> bool {
    !(entry.time <= prev_time && entry.height <= best_processed_height)
}

/// The next position of a list of transactions that is not in a map.
pub open spec fn next_unknown<V>(txids: Seq<Txid>, known: Map<Txid, V>, from: int) -> int
    decreases txids.len() - from,
{
    if from >= txids.len() {
        txids.len() as int
    } else if known.dom().contains(txids[from]) {
        next_unknown(txids, known, from + 1)
    } else {
        from
    }
}

/// The latest of the times of entries, and of another time.
pub open spec fn latest_time(entries: Seq<(Txid, MempoolEntry)>, time: u64) -> u64
    decreases entries.len(),
{
    if entries.len() == 0 {
        time
    } else {
        let front = latest_time(entries.drop_last(), time);
        if entries.last().1.time > front {
            entries.last().1.time
        } else {
            front
        }
    }
}

/// No entry is later than the latest time.
proof fn lemma_latest_time(entries: Seq<(Txid, MempoolEntry)>, time: u64)
    ensures
        time <= latest_time(entries, time),
        forall|i: int|
            0 <= i < entries.len() ==> (#[trigger] entries[i]).1.time <= latest_time(entries, time),
    decreases entries.len(),
{
    if entries.len() > 0 {
        lemma_latest_time(entries.drop_last(), time);
        assert forall|i: int| 0 <= i < entries.len() implies (#[trigger] entries[i]).1.time
            <= latest_time(entries, time) by {
            if i < entries.len() - 1 {
                assert(entries.drop_last()[i] == entries[i]);
            }
        }
    }
}

/// A walk over the entries of the mempool that emits transactions.
pub struct Emission {
    /// The time up to which transactions were emitted before.
    pub prev_time: u64,
    pub best_processed_height: u32,
    /// The position of the entry that is looked at next.
    pub next: usize,
    /// What is emitted so far, each transaction with the time it was first seen.
    pub emitted: Vec<(Transaction, u64)>,
}

/// What a walk needs next.
#[derive(Clone, Copy, Debug)]
pub enum EmissionStep {
    /// A transaction that has to be fetched.
    Fetch(Txid),
    /// Nothing: the walk is over.
    Done,
}

/// What was emitted, by the bytes of the transactions.
pub open spec fn emitted_view(emitted: Seq<(Transaction, u64)>) -> Seq<(Seq<u8>, u64)> {
    emitted.map_values(|e: (Transaction, u64)| (e.0.spec_bytes(), e.1))
}

/// The entry at which a walk stops: the next one that is emitted and not fetched yet.
pub open spec fn stop_at(
    entries: Seq<(Txid, MempoolEntry)>,
    txs: Map<Txid, (Transaction, u64)>,
    prev_time: u64,
    height: u32,
    from: int,
) -> int
    decreases entries.len() - from,
{
    if from >= entries.len() {
        entries.len() as int
    } else if to_emit(entries[from].1, prev_time, height) && !txs.dom().contains(entries[from].0) {
        from
    } else {
        stop_at(entries, txs, prev_time, height, from + 1)
    }
}

/// What a walk emits on its way: the transactions that were fetched before.
pub open spec fn emitted_between(
    entries: Seq<(Txid, MempoolEntry)>,
    txs: Map<Txid, (Transaction, u64)>,
    prev_time: u64,
    height: u32,
    from: int,
    to: int,
) -> Seq<(Seq<u8>, u64)>
    decreases to - from,
{
    if from >= to {
        Seq::empty()
    } else {
        let front = emitted_between(entries, txs, prev_time, height, from, to - 1);
        let (txid, entry) = entries[to - 1];
        if to_emit(entry, prev_time, height) && txs.dom().contains(txid) {
            front.push((txs[txid].0.spec_bytes(), txs[txid].1))
        } else {
            front
        }
    }
}

impl MempoolCache {
    /// Nothing is known of the mempool.
    pub fn new() -> (cache: Self)
        ensures
            cache.latest_mempool_timestamp == 0,
            cache.entries@ == Map::<Txid, MempoolEntry>::empty(),
            cache.txs@ == Map::<Txid, (Transaction, u64)>::empty(),
    {
        MempoolCache {
            latest_mempool_timestamp: 0,
            entries: VecMap::new(),
            txs: VecMap::new(),
        }
    }

    /// Begins to bring the entries up to date: those that left the mempool are dropped.
    pub fn begin_update(&mut self, mempool_txids: &Vec<Txid>)
        ensures
            final(self).entries@ == old(self).entries@.restrict(mempool_txids@.to_set()),
            final(self).txs == old(self).txs,
            final(self).latest_mempool_timestamp == old(self).latest_mempool_timestamp,
    {
        let mut entries: VecMap<Txid, MempoolEntry> = VecMap::new();
        std::mem::swap(&mut entries, &mut self.entries);
        self.entries = retain_listed(entries, mempool_txids);
    }

    /// The position of the next transaction of the mempool whose entry has to be fetched.
    pub fn next_entry_to_fetch(&self, mempool_txids: &Vec<Txid>, from: usize) -> (position: Option<
        usize,
    >)
        requires
            from <= mempool_txids@.len(),
        ensures
            match position {
                Some(i) => i < mempool_txids@.len() && i == next_unknown(
                    mempool_txids@,
                    self.entries@,
                    from as int,
                ),
                None => next_unknown(mempool_txids@, self.entries@, from as int)
                    == mempool_txids@.len(),
            },
    {
        let mut i: usize = from;
        while i < mempool_txids.len()
            invariant
                i <= mempool_txids@.len(),
                next_unknown(mempool_txids@, self.entries@, from as int) == next_unknown(
                    mempool_txids@,
                    self.entries@,
                    i as int,
                ),
            decreases mempool_txids@.len() - i,
        {
            if !self.entries.contains_key(&mempool_txids[i]) {
                return Some(i);
            }
            i += 1;
        }
        None
    }

    /// Notes the entry of a transaction. One that has left the mempool meanwhile has none.
    pub fn note_entry(&mut self, txid: Txid, entry: Option<MempoolEntry>)
        ensures
            final(self).entries@ == (match entry {
                Some(entry) => old(self).entries@.insert(txid, entry),
                None => old(self).entries@,
            }),
            final(self).txs == old(self).txs,
            final(self).latest_mempool_timestamp == old(self).latest_mempool_timestamp,
    {
        if let Some(entry) = entry {
            self.entries.insert(txid, entry);
        }
    }

    /// The transactions that have an entry.
    fn entry_txids(&self) -> (txids: Vec<Txid>)
        ensures
            txids@.to_set() == self.entries@.dom(),
    {
        let n: usize = self.entries.len();
        let mut txids: Vec<Txid> = Vec::new();
        let mut i: usize = 0;
        let ghost pairs = self.entries.pairs();
        while i < n
            invariant
                i <= n,
                n == pairs.len(),
                pairs == self.entries.pairs(),
                txids@.len() == i,
                forall|j: int| 0 <= j < i ==> #[trigger] txids@[j] == pairs[j].0,
            decreases n - i,
        {
            txids.push(self.entries.pair_at(i).0);
            i += 1;
        }
        proof {
            assert forall|t: Txid| txids@.to_set().contains(t) <==> self.entries@.dom().contains(
                t,
            ) by {
                if txids@.contains(t) {
                    let j = choose|j: int| 0 <= j < txids@.len() && txids@[j] == t;
                    assert(pairs[j].0 == t);
                }
                if self.entries@.dom().contains(t) {
                    let j = choose|j: int|
                        0 <= j < self.entries.pairs().len() && (#[trigger] self.entries.pairs()[j]).0
                            == t;
                    assert(txids@[j] == t);
                }
            }
            assert(txids@.to_set() =~= self.entries@.dom());
        }
        txids
    }

    /// Begins to emit transactions. Fetched ones that left the mempool are dropped.
    pub fn begin_emission(&mut self, best_processed_height: u32) -> (emission: Emission)
        ensures
            final(self).txs@ == old(self).txs@.restrict(old(self).entries@.dom()),
            final(self).entries == old(self).entries,
            final(self).latest_mempool_timestamp == old(self).latest_mempool_timestamp,
            emission.prev_time == old(self).latest_mempool_timestamp,
            emission.best_processed_height == best_processed_height,
            emission.next == 0,
            emission.emitted@ == Seq::<(Transaction, u64)>::empty(),
    {
        let txids = self.entry_txids();
        let mut txs: VecMap<Txid, (Transaction, u64)> = VecMap::new();
        std::mem::swap(&mut txs, &mut self.txs);
        self.txs = retain_listed(txs, &txids);
        Emission {
            prev_time: self.latest_mempool_timestamp,
            best_processed_height,
            next: 0,
            emitted: Vec::new(),
        }
    }

    /// Walks on over the entries, until a transaction has to be fetched.
    pub fn emission_step(&self, emission: &mut Emission) -> (step: EmissionStep)
        requires
            old(emission).next <= self.entries.pairs().len(),
        ensures
            final(emission).prev_time == old(emission).prev_time,
            final(emission).best_processed_height == old(emission).best_processed_height,
            final(emission).next == stop_at(
                self.entries.pairs(),
                self.txs@,
                old(emission).prev_time,
                old(emission).best_processed_height,
                old(emission).next as int,
            ),
            emitted_view(final(emission).emitted@) == emitted_view(old(emission).emitted@)
                + emitted_between(
                self.entries.pairs(),
                self.txs@,
                old(emission).prev_time,
                old(emission).best_processed_height,
                old(emission).next as int,
                final(emission).next as int,
            ),
            match step {
                EmissionStep::Fetch(txid) => final(emission).next < self.entries.pairs().len()
                    && txid == self.entries.pairs()[final(emission).next as int].0,
                EmissionStep::Done => final(emission).next == self.entries.pairs().len(),
            },
    {
        let n: usize = self.entries.len();
        let ghost pairs = self.entries.pairs();
        let ghost start = *emission;
        assert(emitted_view(emission.emitted@) =~= emitted_view(start.emitted@) + emitted_between(
            pairs,
            self.txs@,
            start.prev_time,
            start.best_processed_height,
            start.next as int,
            start.next as int,
        ));
        while emission.next < n
            invariant
                start == *old(emission),
                start.next <= emission.next <= n,
                n == pairs.len(),
                pairs == self.entries.pairs(),
                emission.prev_time == start.prev_time,
                emission.best_processed_height == start.best_processed_height,
                stop_at(
                    pairs,
                    self.txs@,
                    start.prev_time,
                    start.best_processed_height,
                    start.next as int,
                ) == stop_at(
                    pairs,
                    self.txs@,
                    start.prev_time,
                    start.best_processed_height,
                    emission.next as int,
                ),
                emitted_view(emission.emitted@) == emitted_view(start.emitted@) + emitted_between(
                    pairs,
                    self.txs@,
                    start.prev_time,
                    start.best_processed_height,
                    start.next as int,
                    emission.next as int,
                ),
            decreases n - emission.next,
        {
            let (txid, entry) = *self.entries.pair_at(emission.next);
            let already_emitted = entry.time <= emission.prev_time;
            let ancestor_within_height = entry.height <= emission.best_processed_height;
            let ghost before = emission.emitted@;
            if !(already_emitted && ancestor_within_height) {
                match self.txs.get(&txid) {
                    Some(cached) => {
                        emission.emitted.push((cached.0.clone(), cached.1));
                        assert(emitted_view(emission.emitted@) =~= emitted_view(before).push(
                            (cached.0.spec_bytes(), cached.1),
                        ));
                    },
                    None => {
                        return EmissionStep::Fetch(txid);
                    },
                }
            }
            emission.next = emission.next + 1;
            assert(emitted_view(emission.emitted@) =~= emitted_view(start.emitted@)
                + emitted_between(
                pairs,
                self.txs@,
                start.prev_time,
                start.best_processed_height,
                start.next as int,
                emission.next as int,
            ));
        }
        EmissionStep::Done
    }

    /// Takes in the transaction that a walk stopped at. It is emitted, and kept for later. One that
    /// has left the mempool meanwhile is skipped.
    pub fn note_fetched(&mut self, emission: &mut Emission, fetched: Option<Transaction>)
        requires
            old(emission).next < old(self).entries.pairs().len(),
        ensures
            final(self).entries == old(self).entries,
            final(self).latest_mempool_timestamp == old(self).latest_mempool_timestamp,
            final(emission).prev_time == old(emission).prev_time,
            final(emission).best_processed_height == old(emission).best_processed_height,
            final(emission).next == old(emission).next + 1,
            ({
                let (txid, entry) = old(self).entries.pairs()[old(emission).next as int];
                match fetched {
                    Some(tx) => {
                        &&& final(self).txs@.dom().contains(entry.txid)
                        &&& final(self).txs@.remove(entry.txid) == old(self).txs@.remove(entry.txid)
                        &&& final(self).txs@[entry.txid].0.spec_bytes() == tx.spec_bytes()
                        &&& final(self).txs@[entry.txid].1 == entry.time
                        &&& emitted_view(final(emission).emitted@) == emitted_view(
                            old(emission).emitted@,
                        ).push((tx.spec_bytes(), entry.time))
                    },
                    None => final(self).txs == old(self).txs && final(emission).emitted == old(
                        emission,
                    ).emitted,
                }
            }),
    {
        let n: usize = self.entries.len();
        let entry = self.entries.pair_at(emission.next).1;
        if let Some(tx) = fetched {
            let ghost before = emission.emitted@;
            self.txs.insert(entry.txid, (tx.clone(), entry.time));
            emission.emitted.push((tx, entry.time));
            proof {
                assert(emitted_view(emission.emitted@) =~= emitted_view(before).push(
                    (tx.spec_bytes(), entry.time),
                ));
            }
        }
        emission.next = emission.next + 1;
    }

    /// Ends a walk. Where anything was emitted the latest time of the entries is noted.
    pub fn finish_emission(&mut self, emission: Emission) -> (emitted: Vec<(Transaction, u64)>)
        ensures
            emitted == emission.emitted,
            final(self).entries == old(self).entries,
            final(self).txs == old(self).txs,
            final(self).latest_mempool_timestamp == (if emission.emitted@.len() > 0 {
                latest_time(old(self).entries.pairs(), emission.prev_time)
            } else {
                old(self).latest_mempool_timestamp
            }),
    {
        let n: usize = self.entries.len();
        let ghost pairs = self.entries.pairs();
        let mut latest: u64 = emission.prev_time;
        let mut i: usize = 0;
        assert(pairs.subrange(0, 0) =~= Seq::empty());
        while i < n
            invariant
                i <= n,
                n == pairs.len(),
                pairs == self.entries.pairs(),
                latest == latest_time(pairs.subrange(0, i as int), emission.prev_time),
            decreases n - i,
        {
            let time: u64 = self.entries.pair_at(i).1.time;
            proof {
                assert(pairs.subrange(0, i + 1).drop_last() =~= pairs.subrange(0, i as int));
            }
            if time > latest {
                latest = time;
            }
            i += 1;
        }
        assert(pairs.subrange(0, i as int) =~= pairs);
        if emission.emitted.len() > 0 {
            self.latest_mempool_timestamp = latest;
        }
        emission.emitted
    }

    /// The transactions of the wallet that are no longer in the mempool, each with the last time at
    /// which it was seen absent.
    pub fn get_evicted_mempool_txids_and_timestamp(&self, unconfirmed_txids: &Vec<Txid>) -> (evicted:
        Vec<(Txid, u64)>)
        ensures
            evicted@ == absent(unconfirmed_txids@, self.entries@, self.latest_mempool_timestamp),
    {
        let mut evicted: Vec<(Txid, u64)> = Vec::new();
        let mut i: usize = 0;
        assert(unconfirmed_txids@.subrange(0, 0) =~= Seq::empty());
        while i < unconfirmed_txids.len()
            invariant
                i <= unconfirmed_txids@.len(),
                evicted@ == absent(
                    unconfirmed_txids@.subrange(0, i as int),
                    self.entries@,
                    self.latest_mempool_timestamp,
                ),
            decreases unconfirmed_txids@.len() - i,
        {
            let txid = unconfirmed_txids[i];
            proof {
                assert(unconfirmed_txids@.subrange(0, i + 1).drop_last()
                    =~= unconfirmed_txids@.subrange(0, i as int));
            }
            if !self.entries.contains_key(&txid) {
                evicted.push((txid, self.latest_mempool_timestamp));
            }
            i += 1;
        }
        assert(unconfirmed_txids@.subrange(0, i as int) =~= unconfirmed_txids@);
        evicted
    }
}

/// The transactions of a list that are not in the mempool, each with a time.
pub open spec fn absent(txids: Seq<Txid>, entries: Map<Txid, MempoolEntry>, time: u64) -> Seq<
    (Txid, u64),
>
    decreases txids.len(),
{
    if txids.len() == 0 {
        Seq::empty()
    } else {
        let front = absent(txids.drop_last(), entries, time);
        if entries.dom().contains(txids.last()) {
            front
        } else {
            front.push((txids.last(), time))
        }
    }
}

/// Each transaction is emitted only once, unless we cannot assume that its ancestors are emitted: after
/// a walk that emitted anything, a walk over the same entries at a height that is no lower than any of
/// theirs stops nowhere and emits nothing.
pub proof fn law_nothing_is_emitted_twice(
    entries: Seq<(Txid, MempoolEntry)>,
    txs: Map<Txid, (Transaction, u64)>,
    prev_time: u64,
    height: u32,
)
    requires
        forall|i: int| 0 <= i < entries.len() ==> (#[trigger] entries[i]).1.height <= height,
    ensures
        ({
            let noted = latest_time(entries, prev_time);
            &&& stop_at(entries, txs, noted, height, 0) == entries.len()
            &&& emitted_between(entries, txs, noted, height, 0, entries.len() as int)
                == Seq::<(Seq<u8>, u64)>::empty()
        }),
{
    lemma_latest_time(entries, prev_time);
    let noted = latest_time(entries, prev_time);
    assert forall|i: int| 0 <= i < entries.len() implies !to_emit(
        (#[trigger] entries[i]).1,
        noted,
        height,
    ) by {}
    lemma_nothing_to_emit(entries, txs, noted, height, 0);
    lemma_nothing_emitted(entries, txs, noted, height, entries.len() as int);
}

proof fn lemma_nothing_to_emit(
    entries: Seq<(Txid, MempoolEntry)>,
    txs: Map<Txid, (Transaction, u64)>,
    prev_time: u64,
    height: u32,
    from: int,
)
    requires
        0 <= from <= entries.len(),
        forall|i: int|
            0 <= i < entries.len() ==> !to_emit((#[trigger] entries[i]).1, prev_time, height),
    ensures
        stop_at(entries, txs, prev_time, height, from) == entries.len(),
    decreases entries.len() - from,
{
    if from < entries.len() {
        lemma_nothing_to_emit(entries, txs, prev_time, height, from + 1);
    }
}

proof fn lemma_nothing_emitted(
    entries: Seq<(Txid, MempoolEntry)>,
    txs: Map<Txid, (Transaction, u64)>,
    prev_time: u64,
    height: u32,
    to: int,
)
    requires
        0 <= to <= entries.len(),
        forall|i: int|
            0 <= i < entries.len() ==> !to_emit((#[trigger] entries[i]).1, prev_time, height),
    ensures
        emitted_between(entries, txs, prev_time, height, 0, to) == Seq::<(Seq<u8>, u64)>::empty(),
    decreases to,
{
    if to > 0 {
        lemma_nothing_emitted(entries, txs, prev_time, height, to - 1);
    }
}

/// A walk is complete: an entry that came to the mempool after the latest time that was noted, or at a
/// height above the best processed block, is either where the walk stops to fetch it, or behind that, or
/// its transaction is emitted with the time that it was first seen. How high the others are does not
/// matter.
pub proof fn law_new_entries_are_emitted(
    entries: Seq<(Txid, MempoolEntry)>,
    txs: Map<Txid, (Transaction, u64)>,
    prev_time: u64,
    height: u32,
    from: int,
    to: int,
    i: int,
)
    requires
        0 <= from <= i < entries.len(),
        entries[i].1.time > prev_time || entries[i].1.height > height,
    ensures
        !txs.dom().contains(entries[i].0) ==> stop_at(entries, txs, prev_time, height, from) <= i,
        txs.dom().contains(entries[i].0) && i < to <= entries.len() ==> emitted_between(
            entries,
            txs,
            prev_time,
            height,
            from,
            to,
        ).contains((txs[entries[i].0].0.spec_bytes(), txs[entries[i].0].1)),
{
    if !txs.dom().contains(entries[i].0) {
        lemma_stops_at_missing(entries, txs, prev_time, height, from, i);
    } else if i < to <= entries.len() {
        lemma_emits_known(entries, txs, prev_time, height, from, to, i);
    }
}

proof fn lemma_stops_at_missing(
    entries: Seq<(Txid, MempoolEntry)>,
    txs: Map<Txid, (Transaction, u64)>,
    prev_time: u64,
    height: u32,
    from: int,
    i: int,
)
    requires
        0 <= from <= i < entries.len(),
        entries[i].1.time > prev_time || entries[i].1.height > height,
        !txs.dom().contains(entries[i].0),
    ensures
        stop_at(entries, txs, prev_time, height, from) <= i,
    decreases i - from,
{
    if from < i {
        lemma_stops_at_missing(entries, txs, prev_time, height, from + 1, i);
    }
}

proof fn lemma_emits_known(
    entries: Seq<(Txid, MempoolEntry)>,
    txs: Map<Txid, (Transaction, u64)>,
    prev_time: u64,
    height: u32,
    from: int,
    to: int,
    i: int,
)
    requires
        0 <= from <= i < to <= entries.len(),
        entries[i].1.time > prev_time || entries[i].1.height > height,
        txs.dom().contains(entries[i].0),
    ensures
        emitted_between(entries, txs, prev_time, height, from, to).contains(
            (txs[entries[i].0].0.spec_bytes(), txs[entries[i].0].1),
        ),
    decreases to - i,
{
    let wanted = (txs[entries[i].0].0.spec_bytes(), txs[entries[i].0].1);
    let all = emitted_between(entries, txs, prev_time, height, from, to);
    if i == to - 1 {
        assert(all.last() == wanted);
        assert(all[all.len() - 1] == wanted);
    } else {
        lemma_emits_known(entries, txs, prev_time, height, from, to - 1, i);
        let front = emitted_between(entries, txs, prev_time, height, from, to - 1);
        let k = choose|k: int| 0 <= k < front.len() && front[k] == wanted;
        assert(all[k] == wanted);
    }
}

/// A walk emits nothing else: whatever it emits is the transaction of an entry on its way that came after
/// the noted time or above the best processed block, with the time that it was first seen.
pub proof fn law_only_new_entries_are_emitted(
    entries: Seq<(Txid, MempoolEntry)>,
    txs: Map<Txid, (Transaction, u64)>,
    prev_time: u64,
    height: u32,
    from: int,
    to: int,
    k: int,
)
    requires
        0 <= from <= to <= entries.len(),
        0 <= k < emitted_between(entries, txs, prev_time, height, from, to).len(),
    ensures
        exists|i: int|
            #![trigger entries[i]]
            from <= i < to && (entries[i].1.time > prev_time || entries[i].1.height > height)
                && txs.dom().contains(entries[i].0) && emitted_between(
                entries,
                txs,
                prev_time,
                height,
                from,
                to,
            )[k] == (txs[entries[i].0].0.spec_bytes(), txs[entries[i].0].1),
    decreases to - from,
{
    if from < to {
        let front = emitted_between(entries, txs, prev_time, height, from, to - 1);
        if k < front.len() {
            law_only_new_entries_are_emitted(entries, txs, prev_time, height, from, to - 1, k);
        } else {
            let entry = entries[to - 1];
            assert(entry.1.time > prev_time || entry.1.height > height);
        }
    }
}

/// A walk stops at an entry on its way whose transaction has yet to be fetched, and which came after the
/// noted time or above the best processed block; or at the end.
pub proof fn law_walks_stop_at_what_has_to_be_fetched(
    entries: Seq<(Txid, MempoolEntry)>,
    txs: Map<Txid, (Transaction, u64)>,
    prev_time: u64,
    height: u32,
    from: int,
)
    requires
        0 <= from <= entries.len(),
    ensures
        ({
            let stop = stop_at(entries, txs, prev_time, height, from);
            &&& from <= stop <= entries.len()
            &&& stop < entries.len() ==> !txs.dom().contains(entries[stop].0) && (
            entries[stop].1.time > prev_time || entries[stop].1.height > height)
        }),
    decreases entries.len() - from,
{
    if from < entries.len() {
        law_walks_stop_at_what_has_to_be_fetched(entries, txs, prev_time, height, from + 1);
    }
}

/// What a walk emits in two legs is what it emits in one.
pub proof fn law_walks_go_on_where_they_stopped(
    entries: Seq<(Txid, MempoolEntry)>,
    txs: Map<Txid, (Transaction, u64)>,
    prev_time: u64,
    height: u32,
    from: int,
    mid: int,
    to: int,
)
    requires
        0 <= from <= mid <= to <= entries.len(),
    ensures
        emitted_between(entries, txs, prev_time, height, from, to) == emitted_between(
            entries,
            txs,
            prev_time,
            height,
            from,
            mid,
        ) + emitted_between(entries, txs, prev_time, height, mid, to),
    decreases to - mid,
{
    let first = emitted_between(entries, txs, prev_time, height, from, mid);
    let second = emitted_between(entries, txs, prev_time, height, mid, to);
    if mid < to {
        law_walks_go_on_where_they_stopped(entries, txs, prev_time, height, from, mid, to - 1);
    }
    assert(emitted_between(entries, txs, prev_time, height, from, to) =~= first + second);
}

/// The time that is noted is the latest one: no entry is later, and it is that of an entry, or the one
/// that was noted before.
pub proof fn law_the_latest_time_is_noted(entries: Seq<(Txid, MempoolEntry)>, time: u64)
    ensures
        time <= latest_time(entries, time),
        forall|i: int|
            0 <= i < entries.len() ==> (#[trigger] entries[i]).1.time <= latest_time(entries, time),
        latest_time(entries, time) == time || exists|i: int|
            0 <= i < entries.len() && (#[trigger] entries[i]).1.time == latest_time(entries, time),
    decreases entries.len(),
{
    lemma_latest_time(entries, time);
    if entries.len() > 0 {
        let front = entries.drop_last();
        law_the_latest_time_is_noted(front, time);
        if latest_time(entries, time) == latest_time(front, time) && latest_time(front, time)
            != time {
            let i = choose|i: int|
                0 <= i < front.len() && (#[trigger] front[i]).1.time == latest_time(front, time);
            assert(entries[i] == front[i]);
        } else if latest_time(entries, time) != time {
            assert(entries[entries.len() - 1].1.time == latest_time(entries, time));
        }
    }
}

/// The transactions whose entries are fetched are those of the mempool that have none: none of them is
/// passed over, and none that has an entry is fetched.
pub proof fn law_all_missing_entries_are_fetched<V>(
    txids: Seq<Txid>,
    known: Map<Txid, V>,
    from: int,
)
    requires
        0 <= from <= txids.len(),
    ensures
        from <= next_unknown(txids, known, from) <= txids.len(),
        next_unknown(txids, known, from) < txids.len() ==> !known.dom().contains(
            txids[next_unknown(txids, known, from)],
        ),
        forall|i: int|
            from <= i < next_unknown(txids, known, from) ==> known.dom().contains(
                #[trigger] txids[i],
            ),
    decreases txids.len() - from,
{
    if from < txids.len() {
        law_all_missing_entries_are_fetched(txids, known, from + 1);
    }
}

/// The transactions of a wallet that are given up are those without an entry in the mempool, each with
/// the time that was noted.
pub proof fn law_what_left_the_mempool_is_evicted(
    txids: Seq<Txid>,
    entries: Map<Txid, MempoolEntry>,
    time: u64,
    txid: Txid,
)
    ensures
        absent(txids, entries, time).contains((txid, time)) <==> txids.contains(txid)
            && !entries.dom().contains(txid),
        forall|k: int|
            0 <= k < absent(txids, entries, time).len() ==> (#[trigger] absent(
                txids,
                entries,
                time,
            )[k]).1 == time,
    decreases txids.len(),
{
    let all = absent(txids, entries, time);
    if txids.len() > 0 {
        let front = txids.drop_last();
        let before = absent(front, entries, time);
        law_what_left_the_mempool_is_evicted(front, entries, time, txid);
        if before.contains((txid, time)) {
            let k = choose|k: int| 0 <= k < before.len() && before[k] == (txid, time);
            assert(all[k] == (txid, time));
        }
        if front.contains(txid) {
            let k = choose|k: int| 0 <= k < front.len() && front[k] == txid;
            assert(txids[k] == txid);
        }
        if txids.contains(txid) && !front.contains(txid) {
            let k = choose|k: int| 0 <= k < txids.len() && txids[k] == txid;
            if k < front.len() {
                assert(front[k] == txid);
            }
            if !entries.dom().contains(txid) {
                assert(all[before.len() as int] == (txid, time));
            }
        }
        if all.contains((txid, time)) && !before.contains((txid, time)) {
            let k = choose|k: int| 0 <= k < all.len() && all[k] == (txid, time);
            if k < before.len() {
                assert(before[k] == (txid, time));
            }
            assert(txids[txids.len() - 1] == txid);
        }
        assert forall|k: int| 0 <= k < all.len() implies (#[trigger] all[k]).1 == time by {
            if k < before.len() {
                assert(all[k] == before[k]);
            }
        }
    }
}

/// What is said of the emitted transactions is said of each of them, in their order: its bytes, and the
/// time that it was first seen.
pub proof fn law_emitted_transactions_are_told_by_bytes_and_time(
    emitted: Seq<(Transaction, u64)>,
    i: int,
)
    requires
        0 <= i < emitted.len(),
    ensures
        emitted_view(emitted).len() == emitted.len(),
        emitted_view(emitted)[i] == (emitted[i].0.spec_bytes(), emitted[i].1),
{
}

/// What a walk over the mempool does: it passes over what was emitted before, and emits every new transaction
/// that it has, in order, until it reaches one that has to be fetched.
pub proof fn law_walks_emit_what_is_new(
    cache: MempoolCache,
    emission: &mut Emission,
    step: EmissionStep,
    i: int,
)
    requires
        old(emission).next <= i < cache.entries.pairs().len(),
        call_ensures(MempoolCache::emission_step, (&cache, emission), step),
    ensures
        ({
            let (txid, entry) = cache.entries.pairs()[i];
            let new = entry.time > old(emission).prev_time || entry.height > old(emission).best_processed_height;
            &&& old(emission).next <= final(emission).next
            &&& new && !cache.txs@.dom().contains(txid) ==> final(emission).next <= i && step
                is Fetch
            &&& new && cache.txs@.dom().contains(txid) && i < final(emission).next ==> emitted_view(
                final(emission).emitted@,
            ).contains((cache.txs@[txid].0.spec_bytes(), cache.txs@[txid].1))
            &&& step matches EmissionStep::Fetch(wanted) ==> wanted
                == cache.entries.pairs()[final(emission).next as int].0
                && !cache.txs@.dom().contains(wanted)
        }),
{
    let entries = cache.entries.pairs();
    let (prev_time, height) = (old(emission).prev_time, old(emission).best_processed_height);
    let from = old(emission).next as int;
    let (txid, entry) = entries[i];
    law_walks_stop_at_what_has_to_be_fetched(entries, cache.txs@, prev_time, height, from);
    if entry.time > prev_time || entry.height > height {
        law_new_entries_are_emitted(
            entries,
            cache.txs@,
            prev_time,
            height,
            from,
            final(emission).next as int,
            i,
        );
        let between = emitted_between(
            entries,
            cache.txs@,
            prev_time,
            height,
            from,
            final(emission).next as int,
        );
        if cache.txs@.dom().contains(txid) && i < final(emission).next {
            let pair = (cache.txs@[txid].0.spec_bytes(), cache.txs@[txid].1);
            let k = choose|k: int| 0 <= k < between.len() && between[k] == pair;
            let before = emitted_view(old(emission).emitted@);
            assert((before + between)[before.len() + k] == pair);
        }
    }
}

/// What the cache does with what it is told: an update keeps the entries of what is still in the mempool and
/// no others; an entry is noted for its transaction; and an emission begins with the transactions that still
/// have entries.
pub proof fn law_the_cache_follows_the_mempool(
    updated: &mut MempoolCache,
    txids: Vec<Txid>,
    noted: &mut MempoolCache,
    txid: Txid,
    entry: MempoolEntry,
    begun: &mut MempoolCache,
    height: u32,
    emission: Emission,
    other: Txid,
)
    requires
        call_ensures(MempoolCache::begin_update, (updated, &txids), ()),
        call_ensures(MempoolCache::note_entry, (noted, txid, Some(entry)), ()),
        call_ensures(MempoolCache::begin_emission, (begun, height), emission),
    ensures
        final(updated).entries@.dom().contains(other) <==> old(updated).entries@.dom().contains(
            other,
        ) && txids@.contains(other),
        final(updated).entries@.dom().contains(other) ==> final(updated).entries@[other] == old(updated).entries@[other],
        final(updated).latest_mempool_timestamp == old(updated).latest_mempool_timestamp,
        final(noted).entries@.dom().contains(txid) && final(noted).entries@[txid] == entry,
        other != txid && old(noted).entries@.dom().contains(other) ==> final(noted).entries@.dom().contains(other) && final(noted).entries@[other] == old(noted).entries@[other],
        final(begun).txs@.dom().contains(other) <==> old(begun).txs@.dom().contains(other) && old(begun).entries@.dom().contains(other),
        emission.next == 0,
        emission.emitted@.len() == 0,
        emission.prev_time == old(begun).latest_mempool_timestamp,
        emission.best_processed_height == height,
{
}

/// What became of an emission: what was emitted is handed out, and where that is anything the latest time of
/// all entries is noted, so that it is not emitted again. What is gone from the mempool is evicted at that
/// time.
pub proof fn law_emissions_note_the_latest_time(
    cache: &mut MempoolCache,
    emission: Emission,
    emitted: Vec<(Transaction, u64)>,
    later: MempoolCache,
    unconfirmed: Vec<Txid>,
    evicted: Vec<(Txid, u64)>,
    txid: Txid,
    i: int,
)
    requires
        call_ensures(MempoolCache::finish_emission, (cache, emission), emitted),
        call_ensures(
            MempoolCache::get_evicted_mempool_txids_and_timestamp,
            (&later, &unconfirmed),
            evicted,
        ),
    ensures
        emitted == emission.emitted,
        emission.emitted@.len() == 0 ==> final(cache).latest_mempool_timestamp == old(cache).latest_mempool_timestamp,
        emission.emitted@.len() > 0 && 0 <= i < old(cache).entries.pairs().len() ==> old(cache).entries.pairs()[i].1.time <= final(cache).latest_mempool_timestamp,
        evicted@.contains((txid, later.latest_mempool_timestamp)) <==> unconfirmed@.contains(txid)
            && !later.entries@.dom().contains(txid),
{
    law_the_latest_time_is_noted(old(cache).entries.pairs(), emission.prev_time);
    law_what_left_the_mempool_is_evicted(
        unconfirmed@,
        later.entries@,
        later.latest_mempool_timestamp,
        txid,
    );
}

} // verus!
