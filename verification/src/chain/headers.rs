//! The headers of recent blocks.
use crate::types::BlockHash;
use crate::vec_map::VecMap;
use vstd::prelude::*;

verus! {

pub const MAX_HEADER_CACHE_ENTRIES: usize = 100;

/// A cache of headers that forgets the oldest ones.
pub struct BoundedHeaderCache<H> {
    header_map: VecMap<BlockHash, H>,
    recently_seen: Vec<BlockHash>,
}

/// The headers that are left, and the order in which they came, when the oldest one is dropped:
/// blocks that were disconnected meanwhile are passed over.
pub open spec fn without_oldest<H>(headers: Map<BlockHash, H>, seen: Seq<BlockHash>) -> (
    Map<BlockHash, H>,
    Seq<BlockHash>,
)
    decreases seen.len(),
{
    if seen.len() == 0 {
        (headers, seen)
    } else if headers.dom().contains(seen[0]) {
        (headers.remove(seen[0]), seen.skip(1))
    } else {
        without_oldest(headers, seen.skip(1))
    }
}

/// Every header that is known was seen.
pub open spec fn all_seen<H>(headers: Map<BlockHash, H>, seen: Seq<BlockHash>) -> bool {
    forall|hash: BlockHash| #[trigger] headers.dom().contains(hash) ==> seen.contains(hash)
}

/// The headers, and the order in which they came, once a block was connected. Where there are too many
/// headers the oldest one is dropped.
pub open spec fn after_connect<H>(
    headers: Map<BlockHash, H>,
    seen: Seq<BlockHash>,
    block_hash: BlockHash,
    header: H,
) -> (Map<BlockHash, H>, Seq<BlockHash>) {
    let all = headers.insert(block_hash, header);
    if all.len() >= MAX_HEADER_CACHE_ENTRIES {
        without_oldest(all, seen.push(block_hash))
    } else {
        (all, seen.push(block_hash))
    }
}

/// All blocks but one.
pub open spec fn other_than(block_hash: BlockHash) -> spec_fn(BlockHash) -> bool {
    |h: BlockHash| h != block_hash
}

/// The headers, and the order in which they came, once a block was disconnected.
pub open spec fn after_disconnect<H>(
    headers: Map<BlockHash, H>,
    seen: Seq<BlockHash>,
    block_hash: BlockHash,
) -> (Map<BlockHash, H>, Seq<BlockHash>) {
    (headers.remove(block_hash), seen.filter(other_than(block_hash)))
}

impl<H> BoundedHeaderCache<H> {
    pub closed spec fn headers(self) -> Map<BlockHash, H> {
        self.header_map@
    }

    pub closed spec fn seen(self) -> Seq<BlockHash> {
        self.recently_seen@
    }

    /// Every header was seen, and there are fewer of them than the maximum.
    pub open spec fn well_formed(self) -> bool {
        &&& all_seen(self.headers(), self.seen())
        &&& self.headers().dom().finite()
        &&& self.headers().len() < MAX_HEADER_CACHE_ENTRIES
    }

    pub fn new() -> (cache: Self)
        ensures
            cache.well_formed(),
            cache.headers() == Map::<BlockHash, H>::empty(),
            cache.seen() == Seq::<BlockHash>::empty(),
    {
        let cache = BoundedHeaderCache { header_map: VecMap::new(), recently_seen: Vec::new() };
        assert(cache.headers().dom() =~= Set::empty());
        cache
    }

    /// The header of a block.
    pub fn look_up(&self, block_hash: &BlockHash) -> (header: Option<&H>)
        ensures
            match header {
                Some(h) => self.headers().dom().contains(*block_hash) && self.headers()[*block_hash]
                    == *h,
                None => !self.headers().dom().contains(*block_hash),
            },
    {
        self.header_map.get(block_hash)
    }

    /// Takes in the header of a block. Where there are too many the oldest one is dropped.
    pub fn block_connected(&mut self, block_hash: BlockHash, block_header: H)
        requires
            old(self).well_formed(),
        ensures
            final(self).well_formed(),
            (final(self).headers(), final(self).seen()) == after_connect(
                old(self).headers(),
                old(self).seen(),
                block_hash,
                block_header,
            ),
    {
        let ghost headers = self.header_map@.insert(block_hash, block_header);
        let ghost seen = self.recently_seen@.push(block_hash);
        proof {
            assert forall|hash: BlockHash| #[trigger] headers.dom().contains(hash) implies seen.contains(
            hash) by {
                if hash == block_hash {
                    assert(seen[seen.len() - 1] == hash);
                } else {
                    assert(self.header_map@.dom().contains(hash));
                    let i = choose|i: int|
                        0 <= i < self.recently_seen@.len() && self.recently_seen@[i] == hash;
                    assert(seen[i] == hash);
                }
            }
        }
        proof {
            assert(headers.dom() =~= self.header_map@.dom().insert(block_hash));
            assert(headers.len() <= self.header_map@.len() + 1);
        }
        self.recently_seen.push(block_hash);
        self.header_map.insert(block_hash, block_header);
        if self.header_map.len() >= MAX_HEADER_CACHE_ENTRIES {
            let mut removed: bool = false;
            while !removed && self.recently_seen.len() > 0
                invariant
                    removed ==> (self.header_map@, self.recently_seen@) == without_oldest(
                        headers,
                        seen,
                    ),
                    !removed ==> self.header_map@ == headers && without_oldest(
                        headers,
                        self.recently_seen@,
                    ) == without_oldest(headers, seen),
                    removed ==> all_seen(self.header_map@, self.recently_seen@)
                        && self.header_map@.len() == headers.len() - 1,
                    !removed ==> all_seen(headers, self.recently_seen@),
                    headers.dom().finite(),
                    self.header_map@.dom().finite(),
                decreases self.recently_seen@.len(),
            {
                let ghost left = self.recently_seen@;
                let oldest = self.recently_seen.remove(0);
                let ghost rest = self.recently_seen@;
                proof {
                    assert(rest =~= left.skip(1));
                    assert(oldest == left[0]);
                    assert forall|hash: BlockHash| #[trigger]
                        headers.dom().contains(hash) && hash != oldest implies rest.contains(
                    hash) by {
                        let i = choose|i: int| 0 <= i < left.len() && left[i] == hash;
                        assert(rest[i - 1] == hash);
                    }
                }
                if self.header_map.remove(&oldest).is_some() {
                    removed = true;
                } else {
                    assert(headers.remove(oldest) =~= headers);
                }
            }
            proof {
                if !removed {
                    assert(headers.dom().contains(block_hash));
                    assert(self.recently_seen@.contains(block_hash));
                }
            }
        }
    }

    /// Forgets a block, giving back its header.
    pub fn block_disconnected(&mut self, block_hash: &BlockHash) -> (header: Option<H>)
        requires
            old(self).well_formed(),
        ensures
            final(self).well_formed(),
            (final(self).headers(), final(self).seen()) == after_disconnect(
                old(self).headers(),
                old(self).seen(),
                *block_hash,
            ),
            header == (if old(self).headers().dom().contains(*block_hash) {
                Some(old(self).headers()[*block_hash])
            } else {
                None
            }),
    {
        let ghost before = self.recently_seen@;
        let ghost others = other_than(*block_hash);
        let mut kept: Vec<BlockHash> = Vec::new();
        let mut i: usize = 0;
        proof {
            reveal(Seq::filter);
            assert(before.subrange(0, 0) =~= Seq::empty());
        }
        while i < self.recently_seen.len()
            invariant
                i <= self.recently_seen@.len(),
                before == self.recently_seen@,
                others == other_than(*block_hash),
                kept@ == before.subrange(0, i as int).filter(others),
            decreases self.recently_seen@.len() - i,
        {
            proof {
                reveal(Seq::filter);
                assert(before.subrange(0, i + 1).drop_last() =~= before.subrange(0, i as int));
            }
            if self.recently_seen[i] != *block_hash {
                kept.push(self.recently_seen[i]);
            }
            i += 1;
        }
        proof {
            assert(before.subrange(0, i as int) =~= before);
            broadcast use vstd::seq_lib::group_filter_ensures;

            assert forall|hash: BlockHash| #[trigger]
                self.header_map@.remove(*block_hash).dom().contains(hash) implies kept@.contains(
            hash) by {
                assert(self.header_map@.dom().contains(hash));
                let j = choose|j: int| 0 <= j < before.len() && before[j] == hash;
                assert(others(before[j]));
            }
        }
        self.recently_seen = kept;
        self.header_map.remove(block_hash)
    }
}

/// What happens to the blocks that a cache is told of.
pub enum HeaderChange<H> {
    Connected { block_hash: BlockHash, header: H },
    Disconnected { block_hash: BlockHash },
}

/// The headers, and the order in which they came, after some changes to an empty cache.
pub open spec fn after_changes<H>(changes: Seq<HeaderChange<H>>) -> (
    Map<BlockHash, H>,
    Seq<BlockHash>,
)
    decreases changes.len(),
{
    if changes.len() == 0 {
        (Map::empty(), Seq::empty())
    } else {
        let (headers, seen) = after_changes(changes.drop_last());
        match changes.last() {
            HeaderChange::Connected { block_hash, header } => after_connect(
                headers,
                seen,
                block_hash,
                header,
            ),
            HeaderChange::Disconnected { block_hash } => after_disconnect(
                headers,
                seen,
                block_hash,
            ),
        }
    }
}

/// Whether no block is connected while its header is cached.
pub open spec fn connects_afresh<H>(changes: Seq<HeaderChange<H>>) -> bool
    decreases changes.len(),
{
    if changes.len() == 0 {
        true
    } else {
        &&& connects_afresh(changes.drop_last())
        &&& changes.last() matches HeaderChange::Connected { block_hash, .. } ==> !after_changes(
            changes.drop_last(),
        ).0.dom().contains(block_hash)
    }
}

/// Whether the order lists exactly the headers that are cached, each once.
pub open spec fn lists_cached<H>(headers: Map<BlockHash, H>, seen: Seq<BlockHash>) -> bool {
    &&& seen.no_duplicates()
    &&& forall|hash: BlockHash| #[trigger] headers.dom().contains(hash) <==> seen.contains(hash)
}

/// A list without one of its blocks holds the others, each as often as before.
proof fn lemma_without(seen: Seq<BlockHash>, block_hash: BlockHash)
    requires
        seen.no_duplicates(),
    ensures
        ({
            let rest = seen.filter(other_than(block_hash));
            &&& rest.no_duplicates()
            &&& forall|hash: BlockHash| #[trigger]
                rest.contains(hash) <==> seen.contains(hash) && hash != block_hash
        }),
    decreases seen.len(),
{
    let others = other_than(block_hash);
    let rest = seen.filter(others);
    reveal(Seq::filter);
    if seen.len() > 0 {
        let front = seen.drop_last();
        assert(front.no_duplicates()) by {
            assert forall|i: int, j: int|
                0 <= i < front.len() && 0 <= j < front.len() && i != j implies front[i]
                != front[j] by {
                assert(seen[i] != seen[j]);
            }
        }
        lemma_without(front, block_hash);
        let kept = front.filter(others);
        assert(!front.contains(seen.last()));
        assert forall|hash: BlockHash| #[trigger] seen.contains(hash) implies front.contains(hash)
            || hash == seen.last() by {
            let i = choose|i: int| 0 <= i < seen.len() && seen[i] == hash;
            if i < front.len() {
                assert(front[i] == hash);
            }
        }
        assert forall|hash: BlockHash| #[trigger] front.contains(hash) implies seen.contains(
        hash) by {
            let i = choose|i: int| 0 <= i < front.len() && front[i] == hash;
            assert(seen[i] == hash);
        }
        if others(seen.last()) {
            assert(rest == kept.push(seen.last()));
            assert forall|hash: BlockHash| #[trigger] rest.contains(hash) implies kept.contains(
                hash,
            ) || hash == seen.last() by {
                let i = choose|i: int| 0 <= i < rest.len() && rest[i] == hash;
                if i < kept.len() {
                    assert(kept[i] == hash);
                }
            }
            assert forall|hash: BlockHash| #[trigger] kept.contains(hash) implies rest.contains(
            hash) by {
                let i = choose|i: int| 0 <= i < kept.len() && kept[i] == hash;
                assert(rest[i] == hash);
            }
            assert(rest[rest.len() - 1] == seen.last());
            assert(seen[seen.len() - 1] == seen.last());
            assert(rest.no_duplicates()) by {
                assert forall|i: int, j: int|
                    0 <= i < rest.len() && 0 <= j < rest.len() && i != j implies rest[i]
                    != rest[j] by {
                    assert(!kept.contains(seen.last()));
                    if i < kept.len() {
                        assert(kept[i] == rest[i] && kept.contains(rest[i]));
                    }
                    if j < kept.len() {
                        assert(kept[j] == rest[j] && kept.contains(rest[j]));
                    }
                }
            }
        } else {
            assert(rest == kept);
        }
    }
}

/// Where the order lists what is cached and a block is connected that is not, only the header that was
/// connected longest ago can go, and the order lists what is cached again.
proof fn lemma_connect<H>(
    headers: Map<BlockHash, H>,
    seen: Seq<BlockHash>,
    block_hash: BlockHash,
    header: H,
)
    requires
        lists_cached(headers, seen),
        headers.dom().finite(),
        headers.len() < MAX_HEADER_CACHE_ENTRIES,
        !headers.dom().contains(block_hash),
    ensures
        ({
            let (after, order) = after_connect(headers, seen, block_hash, header);
            &&& after == if headers.len() == MAX_HEADER_CACHE_ENTRIES - 1 {
                headers.insert(block_hash, header).remove(seen[0])
            } else {
                headers.insert(block_hash, header)
            }
            &&& headers.len() == MAX_HEADER_CACHE_ENTRIES - 1 ==> headers.dom().contains(seen[0])
            &&& lists_cached(after, order)
            &&& after.dom().finite()
            &&& after.len() < MAX_HEADER_CACHE_ENTRIES
        }),
{
    let all = headers.insert(block_hash, header);
    let order = seen.push(block_hash);
    assert(all.dom() =~= headers.dom().insert(block_hash));
    assert(!seen.contains(block_hash));
    assert forall|hash: BlockHash| #[trigger] all.dom().contains(hash) implies order.contains(
    hash) by {
        if hash == block_hash {
            assert(order[order.len() - 1] == hash);
        } else {
            assert(headers.dom().contains(hash));
            let i = choose|i: int| 0 <= i < seen.len() && seen[i] == hash;
            assert(order[i] == hash);
        }
    }
    assert forall|hash: BlockHash| #[trigger] order.contains(hash) implies all.dom().contains(
    hash) by {
        let i = choose|i: int| 0 <= i < order.len() && order[i] == hash;
        if i < seen.len() {
            assert(seen[i] == hash && seen.contains(hash));
            assert(headers.dom().contains(hash));
        }
    }
    assert(order.no_duplicates()) by {
        assert forall|i: int, j: int|
            0 <= i < order.len() && 0 <= j < order.len() && i != j implies order[i] != order[j] by {
            if i < seen.len() {
                assert(seen[i] == order[i] && seen.contains(order[i]));
            }
            if j < seen.len() {
                assert(seen[j] == order[j] && seen.contains(order[j]));
            }
        }
    }
    if headers.len() == MAX_HEADER_CACHE_ENTRIES - 1 {
        if seen.len() == 0 {
            assert(headers.dom() =~= Set::empty()) by {
                assert forall|hash: BlockHash| !headers.dom().contains(hash) by {
                    assert(!seen.contains(hash));
                }
            }
            assert(false);
        }
        let oldest = seen[0];
        assert(order[0] == oldest && seen.contains(oldest));
        assert(headers.dom().contains(oldest) && all.dom().contains(oldest));
        let rest = order.skip(1);
        let after = all.remove(oldest);
        assert(without_oldest(all, order) == (after, rest));
        assert(after.dom() =~= all.dom().remove(oldest));
        assert forall|hash: BlockHash| #[trigger] after.dom().contains(hash) implies rest.contains(
        hash) by {
            assert(all.dom().contains(hash));
            let i = choose|i: int| 0 <= i < order.len() && order[i] == hash;
            assert(rest[i - 1] == hash);
        }
        assert forall|hash: BlockHash| #[trigger] rest.contains(hash) implies after.dom().contains(
        hash) by {
            let i = choose|i: int| 0 <= i < rest.len() && rest[i] == hash;
            assert(order[i + 1] == hash && order.contains(hash));
            assert(order[i + 1] != order[0]);
        }
        assert(rest.no_duplicates()) by {
            assert forall|i: int, j: int|
                0 <= i < rest.len() && 0 <= j < rest.len() && i != j implies rest[i] != rest[j] by {
                assert(order[i + 1] != order[j + 1]);
            }
        }
    }
}

/// In every state that a cache reaches, while no block is connected whose header is cached, the order
/// lists exactly the headers that are cached, and there are fewer of them than the maximum.
pub proof fn law_the_order_lists_the_cached_headers<H>(changes: Seq<HeaderChange<H>>)
    requires
        connects_afresh(changes),
    ensures
        ({
            let (headers, seen) = after_changes(changes);
            &&& lists_cached(headers, seen)
            &&& headers.dom().finite()
            &&& headers.len() < MAX_HEADER_CACHE_ENTRIES
        }),
    decreases changes.len(),
{
    if changes.len() == 0 {
        let (headers, seen) = after_changes(changes);
        assert(headers.dom() =~= Set::empty());
    } else {
        law_the_order_lists_the_cached_headers(changes.drop_last());
        let (headers, seen) = after_changes(changes.drop_last());
        match changes.last() {
            HeaderChange::Connected { block_hash, header } => {
                lemma_connect(headers, seen, block_hash, header);
            },
            HeaderChange::Disconnected { block_hash } => {
                lemma_without(seen, block_hash);
                let rest = headers.remove(block_hash);
                assert(rest.dom() =~= headers.dom().remove(block_hash));
                assert(rest.len() <= headers.len());
            },
        }
    }
}

/// A header is found once its block was connected. Where one header fewer than the maximum was cached
/// before, exactly the one goes that was connected longest ago, which is the first of the order;
/// otherwise none goes. Every other header stays as it is.
pub proof fn law_the_header_connected_longest_ago_goes<H>(
    changes: Seq<HeaderChange<H>>,
    block_hash: BlockHash,
    header: H,
)
    requires
        connects_afresh(changes),
        !after_changes(changes).0.dom().contains(block_hash),
    ensures
        ({
            let (before, seen) = after_changes(changes);
            let after = after_changes(
                changes.push(HeaderChange::Connected { block_hash, header }),
            ).0;
            &&& after.dom().contains(block_hash) && after[block_hash] == header
            &&& before.len() == MAX_HEADER_CACHE_ENTRIES - 1 ==> before.dom().contains(seen[0])
                && after == before.insert(block_hash, header).remove(seen[0])
            &&& before.len() < MAX_HEADER_CACHE_ENTRIES - 1 ==> after == before.insert(
                block_hash,
                header,
            )
        }),
{
    law_the_order_lists_the_cached_headers(changes);
    let (before, seen) = after_changes(changes);
    lemma_connect(before, seen, block_hash, header);
    let change = HeaderChange::Connected { block_hash, header };
    assert(changes.push(change).drop_last() =~= changes);
    assert(changes.push(change).last() == change);
}

/// A header that is connected can be looked up at once, whatever was connected before, as long as the cache
/// holds fewer than 100 headers then; and nothing else is changed by it.
pub proof fn law_connected_headers_can_be_looked_up<H>(
    headers: Map<BlockHash, H>,
    seen: Seq<BlockHash>,
    block_hash: BlockHash,
    header: H,
    other: BlockHash,
)
    requires
        headers.insert(block_hash, header).len() < 100,
    ensures
        ({
            let (after, order) = after_connect(headers, seen, block_hash, header);
            &&& after.dom().contains(block_hash) && after[block_hash] == header
            &&& other != block_hash ==> (after.dom().contains(other) <==> headers.dom().contains(
                other,
            ))
            &&& other != block_hash && headers.dom().contains(other) ==> after[other]
                == headers[other]
            &&& order.len() == seen.len() + 1 && order.last() == block_hash && order.drop_last()
                == seen
        }),
{
    let (after, order) = after_connect(headers, seen, block_hash, header);
    assert(order.drop_last() =~= seen);
}

/// A block that is disconnected cannot be looked up any more and is forgotten wherever it was noted. All
/// other headers stay, in their order.
pub proof fn law_disconnected_headers_are_forgotten<H>(
    headers: Map<BlockHash, H>,
    seen: Seq<BlockHash>,
    block_hash: BlockHash,
    other: BlockHash,
)
    ensures
        ({
            let (after, order) = after_disconnect(headers, seen, block_hash);
            &&& !after.dom().contains(block_hash)
            &&& !order.contains(block_hash)
            &&& other != block_hash ==> (after.dom().contains(other) <==> headers.dom().contains(
                other,
            )) && (order.contains(other) <==> seen.contains(other))
            &&& other != block_hash && headers.dom().contains(other) ==> after[other]
                == headers[other]
            &&& order == seen.filter(|h: BlockHash| h != block_hash)
        }),
{
    let others = other_than(block_hash);
    let order = seen.filter(others);
    if order.contains(block_hash) {
        let i = choose|i: int| 0 <= i < order.len() && order[i] == block_hash;
        seen.lemma_filter_pred(others, i);
    }
    if other != block_hash && seen.contains(other) {
        let i = choose|i: int| 0 <= i < seen.len() && seen[i] == other;
        seen.lemma_filter_contains(others, i);
    }
    if order.contains(other) {
        seen.lemma_filter_contains_rev(others, other);
    }
    assert(other_than(block_hash) =~= (|h: BlockHash| h != block_hash));
}

/// Of the headers that are noted, the one goes that was noted first and is still cached; what was noted
/// before it is forgotten with it, and everything noted later stays.
pub proof fn law_the_first_cached_header_goes<H>(
    headers: Map<BlockHash, H>,
    seen: Seq<BlockHash>,
    i: int,
)
    requires
        0 <= i < seen.len(),
        headers.dom().contains(seen[i]),
        forall|j: int| 0 <= j < i ==> !headers.dom().contains(#[trigger] seen[j]),
    ensures
        without_oldest(headers, seen) == (headers.remove(seen[i]), seen.skip(i + 1)),
    decreases i,
{
    if i > 0 {
        let rest = seen.skip(1);
        assert forall|j: int| 0 <= j < i - 1 implies !headers.dom().contains(#[trigger] rest[j]) by {
            assert(rest[j] == seen[j + 1]);
        }
        assert(!headers.dom().contains(seen[0]));
        assert(rest[i - 1] == seen[i]);
        law_the_first_cached_header_goes(headers, rest, i - 1);
        assert(rest.skip(i) =~= seen.skip(i + 1));
    }
}

/// A header that was connected can be looked up, and one that was disconnected is handed back and cannot be
/// looked up any more.
pub proof fn law_headers_come_and_go(
    cache: &mut BoundedHeaderCache<u64>,
    block_hash: BlockHash,
    header: Option<u64>,
    found: Option<&u64>,
    known: Option<&u64>,
    other: BlockHash,
)
    requires
        old(cache).well_formed(),
        call_ensures(BoundedHeaderCache::<u64>::look_up, (&*old(cache), &block_hash), known),
        call_ensures(BoundedHeaderCache::<u64>::block_disconnected, (cache, &block_hash), header),
        call_ensures(BoundedHeaderCache::<u64>::look_up, (&*final(cache), &block_hash), found),
    ensures
        found is None,
        known matches Some(h) ==> header == Some(*h),
        known is None ==> header is None,
        other != block_hash ==> (final(cache).headers().dom().contains(other) <==> old(
            cache
        ).headers().dom().contains(other)),
{
}

} // verus!
