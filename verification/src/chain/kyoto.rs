//! Following the chain by compact block filters, with headers kept until their filters come.
use crate::chain::electrum::get_fee_rate_cache_update;
use crate::chain::esplora::EstimatesReply;
use crate::chain::fees::{fee_rate_cache, ConfirmationTarget, FeeRateCache};
use crate::chain::filters::BlockFilter;
use crate::chain::scripts::ScriptSet;
use crate::chain::status::TaskEnd;
use crate::error::Error;
use crate::types::{BestBlock, BlockHash, Network};
use crate::vec_map::VecMap;
use vstd::prelude::*;

verus! {

/// How long to wait for the required peer connections before considering the startup failed.
pub const KYOTO_CONNECTION_TIMEOUT_SECS: u64 = 10;

/// A header of a block, with what it is found by.
#[derive(Clone, Copy, Debug)]
pub struct IndexedHeader {
    pub height: u32,
    pub block_hash: BlockHash,
    pub prev_blockhash: BlockHash,
    /// The header as it travels.
    pub header: [u8; 80],
}

/// What the source knows while the node runs.
pub struct KyotoState {
    /// Whether there is a node that was not run yet.
    pub has_node: bool,
    /// Whether the node can be asked.
    pub has_requester: bool,
    /// The most recently completed sync.
    pub synced_checkpoint: Option<BestBlock>,
    /// The headers whose filters have yet to come.
    pub header_cache: VecMap<BlockHash, IndexedHeader>,
}

/// What the node is built anew with.
#[derive(Clone, Copy, Debug)]
pub struct RebuildPlan {
    /// Where it resumes.
    pub checkpoint: Option<BestBlock>,
}

/// How the wait for peers ended.
#[derive(Clone, Copy, Debug, PartialEq, Eq, Structural)]
pub enum ConnectionWait {
    /// There are enough of them.
    ConnectionsMet,
    /// The node ended before.
    NodeEnded,
    /// The time was over first.
    TimedOut,
}

/// What the node reports.
pub enum KyotoEvent {
    /// A header was connected.
    Connected(IndexedHeader),
    /// Headers were replaced by others, the lowest ones first.
    Reorganized { accepted: Vec<IndexedHeader>, reorganized: Vec<IndexedHeader> },
    /// A header was added to another branch.
    ForkAdded,
    /// The filter of a block, and whether it matches any script.
    IndexedFilter { block_hash: BlockHash, height: u32, has_match: bool },
    /// A block that nobody waits for.
    Block,
    /// The filters are synced up to a tip.
    FiltersSynced { tip: BestBlock },
}

/// What is done about a block.
#[derive(Clone, Copy, Debug)]
pub enum BlockAction {
    Nothing,
    /// The block is fetched and handed to all listeners. Where it cannot be had they are handed nothing.
    FetchAndConnect { block_hash: BlockHash, height: u32 },
    /// The header is handed to all listeners but the on-chain wallet.
    ConnectFiltered { header: IndexedHeader, height: u32 },
}

/// What is done about a report.
pub struct KyotoAction {
    /// The block above which the listeners undo everything, before anything else.
    pub disconnect: Option<BestBlock>,
    /// The headers that the on-chain wallet takes in.
    pub apply_headers: Vec<IndexedHeader>,
    pub block: BlockAction,
    /// The checkpoint that is published.
    pub publish: Option<BestBlock>,
}

/// A cache without the headers of a list.
pub open spec fn without_headers(
    cache: Map<BlockHash, IndexedHeader>,
    headers: Seq<IndexedHeader>,
) -> Map<BlockHash, IndexedHeader>
    decreases headers.len(),
{
    if headers.len() == 0 {
        cache
    } else {
        without_headers(cache, headers.drop_last()).remove(headers.last().block_hash)
    }
}

/// A cache with the headers of a list.
pub open spec fn with_headers(
    cache: Map<BlockHash, IndexedHeader>,
    headers: Seq<IndexedHeader>,
) -> Map<BlockHash, IndexedHeader>
    decreases headers.len(),
{
    if headers.len() == 0 {
        cache
    } else {
        with_headers(cache, headers.drop_last()).insert(headers.last().block_hash, headers.last())
    }
}

/// The headers that are kept after a report.
pub open spec fn cache_after(cache: Map<BlockHash, IndexedHeader>, event: KyotoEvent) -> Map<
    BlockHash,
    IndexedHeader,
> {
    match event {
        KyotoEvent::Connected(header) => cache.insert(header.block_hash, header),
        KyotoEvent::Reorganized { accepted, reorganized } => with_headers(
            without_headers(cache, reorganized@),
            accepted@,
        ),
        KyotoEvent::IndexedFilter { block_hash, .. } => cache.remove(block_hash),
        _ => cache,
    }
}

/// The block above which the listeners undo everything.
pub open spec fn disconnect_for(event: KyotoEvent) -> Option<BestBlock> {
    match event {
        KyotoEvent::Reorganized { reorganized, .. } => if reorganized@.len() > 0 {
            Some(
                crate::chain::cbf::fork_point_of(
                    reorganized@[0].prev_blockhash,
                    reorganized@[0].height,
                ),
            )
        } else {
            None
        },
        _ => None,
    }
}

/// The headers that the on-chain wallet takes in.
pub open spec fn headers_for(event: KyotoEvent) -> Seq<IndexedHeader> {
    match event {
        KyotoEvent::Connected(header) => seq![header],
        KyotoEvent::Reorganized { accepted, .. } => accepted@,
        _ => Seq::empty(),
    }
}

/// What is done about a block: nothing without its header, nor where the channels know it already.
pub open spec fn block_action_for(
    cache: Map<BlockHash, IndexedHeader>,
    event: KyotoEvent,
    ldk_tip_height: u32,
) -> BlockAction {
    match event {
        KyotoEvent::IndexedFilter { block_hash, height, has_match } => if !cache.dom().contains(
            block_hash,
        ) || height <= ldk_tip_height {
            BlockAction::Nothing
        } else if has_match {
            BlockAction::FetchAndConnect { block_hash, height }
        } else {
            BlockAction::ConnectFiltered { header: cache[block_hash], height }
        },
        _ => BlockAction::Nothing,
    }
}

impl KyotoState {
    /// A node was built, and not run yet.
    pub fn new() -> (state: Self)
        ensures
            state.has_node,
            state.has_requester,
            state.synced_checkpoint is None,
            state.header_cache@ == Map::<BlockHash, IndexedHeader>::empty(),
    {
        KyotoState {
            has_node: true,
            has_requester: true,
            synced_checkpoint: None,
            header_cache: VecMap::new(),
        }
    }

    /// Begins to run the node. On a restart it has to be built anew, from where the last sync was
    /// completed; nothing that was kept is of use to it.
    pub fn start(&mut self) -> (rebuild: Option<RebuildPlan>)
        ensures
            !final(self).has_node,
            match rebuild {
                Some(plan) => !old(self).has_node && plan.checkpoint == old(self).synced_checkpoint
                    && final(self).has_requester && final(self).synced_checkpoint is None
                    && final(self).header_cache@ == Map::<BlockHash, IndexedHeader>::empty(),
                None => old(self).has_node && final(self).has_requester == old(self).has_requester
                    && final(self).synced_checkpoint == old(self).synced_checkpoint && final(
                    self
                ).header_cache == old(self).header_cache,
            },
    {
        if self.has_node {
            self.has_node = false;
            return None;
        }
        let checkpoint = self.synced_checkpoint;
        self.has_requester = true;
        self.header_cache = VecMap::new();
        self.synced_checkpoint = None;
        Some(RebuildPlan { checkpoint })
    }

    /// Takes in what the node reports.
    pub fn on_event(&mut self, event: KyotoEvent, ldk_tip_height: u32) -> (action: KyotoAction)
        ensures
            final(self).has_node == old(self).has_node,
            final(self).has_requester == old(self).has_requester,
            final(self).header_cache@ == cache_after(old(self).header_cache@, event),
            final(self).synced_checkpoint == (match event {
                KyotoEvent::FiltersSynced { tip } => Some(tip),
                _ => old(self).synced_checkpoint,
            }),
            action.disconnect == disconnect_for(event),
            action.apply_headers@ == headers_for(event),
            action.block == block_action_for(old(self).header_cache@, event, ldk_tip_height),
            action.publish == (match event {
                KyotoEvent::FiltersSynced { tip } => Some(tip),
                _ => None,
            }),
    {
        let mut action = KyotoAction {
            disconnect: None,
            apply_headers: Vec::new(),
            block: BlockAction::Nothing,
            publish: None,
        };
        match event {
            KyotoEvent::Connected(header) => {
                self.header_cache.insert(header.block_hash, header);
                action.apply_headers.push(header);
                assert(action.apply_headers@ =~= seq![header]);
            },
            KyotoEvent::Reorganized { accepted, reorganized } => {
                if reorganized.len() > 0 {
                    let first = reorganized[0];
                    let fork_height: u32 = if first.height == 0 {
                        0
                    } else {
                        first.height - 1
                    };
                    action.disconnect = Some(
                        BestBlock { block_hash: first.prev_blockhash, height: fork_height },
                    );
                }
                self.drop_headers(&reorganized);
                self.keep_headers(&accepted);
                action.apply_headers = accepted;
            },
            KyotoEvent::ForkAdded => {},
            KyotoEvent::IndexedFilter { block_hash, height, has_match } => {
                match self.header_cache.remove(&block_hash) {
                    None => {},
                    Some(header) => {
                        if height > ldk_tip_height {
                            action.block = if has_match {
                                BlockAction::FetchAndConnect { block_hash, height }
                            } else {
                                BlockAction::ConnectFiltered { header, height }
                            };
                        }
                    },
                }
            },
            KyotoEvent::Block => {},
            KyotoEvent::FiltersSynced { tip } => {
                self.synced_checkpoint = Some(tip);
                action.publish = Some(tip);
            },
        }
        action
    }

    /// Takes in a filter. It is matched against the scripts that are looked out for where its header is
    /// kept and the channels do not know the block yet. `None` where it is malformed.
    pub fn on_filter(
        &mut self,
        filter: &BlockFilter,
        scripts: &ScriptSet,
        ldk_tip_height: u32,
    ) -> (block: Option<BlockAction>)
        ensures
            ({
                let needed = old(self).header_cache@.dom().contains(filter.block_hash)
                    && filter.height > ldk_tip_height;
                let matched = if needed {
                    filter.matches(scripts@)
                } else {
                    Some(false)
                };
                match matched {
                    Some(has_match) => {
                        let event = KyotoEvent::IndexedFilter {
                            block_hash: filter.block_hash,
                            height: filter.height,
                            has_match,
                        };
                        &&& block == Some(
                            block_action_for(old(self).header_cache@, event, ldk_tip_height),
                        )
                        &&& final(self).header_cache@ == cache_after(
                            old(self).header_cache@,
                            event,
                        )
                    },
                    None => block is None && final(self).header_cache@ == old(self).header_cache@,
                }
            }),
            final(self).has_node == old(self).has_node,
            final(self).has_requester == old(self).has_requester,
            final(self).synced_checkpoint == old(self).synced_checkpoint,
    {
        let needed = filter.height > ldk_tip_height && self.header_cache.contains_key(
            &filter.block_hash,
        );
        let has_match = if needed {
            let all = scripts.with_watched(Vec::new());
            assert(crate::chain::scripts::scripts_view(all@) =~= scripts@);
            match filter.contains_any(&all) {
                Some(has_match) => has_match,
                None => return None,
            }
        } else {
            false
        };
        let event = KyotoEvent::IndexedFilter {
            block_hash: filter.block_hash,
            height: filter.height,
            has_match,
        };
        Some(self.on_event(event, ldk_tip_height).block)
    }

    fn drop_headers(&mut self, headers: &Vec<IndexedHeader>)
        ensures
            final(self).header_cache@ == without_headers(old(self).header_cache@, headers@),
            final(self).has_node == old(self).has_node,
            final(self).has_requester == old(self).has_requester,
            final(self).synced_checkpoint == old(self).synced_checkpoint,
    {
        let mut i: usize = 0;
        let ghost before = *self;
        assert(headers@.subrange(0, 0) =~= Seq::empty());
        while i < headers.len()
            invariant
                i <= headers@.len(),
                self.header_cache@ == without_headers(
                    before.header_cache@,
                    headers@.subrange(0, i as int),
                ),
                self.has_node == before.has_node,
                self.has_requester == before.has_requester,
                self.synced_checkpoint == before.synced_checkpoint,
            decreases headers@.len() - i,
        {
            proof {
                assert(headers@.subrange(0, i + 1).drop_last() =~= headers@.subrange(0, i as int));
            }
            self.header_cache.remove(&headers[i].block_hash);
            i += 1;
        }
        assert(headers@.subrange(0, i as int) =~= headers@);
    }

    fn keep_headers(&mut self, headers: &Vec<IndexedHeader>)
        ensures
            final(self).header_cache@ == with_headers(old(self).header_cache@, headers@),
            final(self).has_node == old(self).has_node,
            final(self).has_requester == old(self).has_requester,
            final(self).synced_checkpoint == old(self).synced_checkpoint,
    {
        let mut i: usize = 0;
        let ghost before = *self;
        assert(headers@.subrange(0, 0) =~= Seq::empty());
        while i < headers.len()
            invariant
                i <= headers@.len(),
                self.header_cache@ == with_headers(
                    before.header_cache@,
                    headers@.subrange(0, i as int),
                ),
                self.has_node == before.has_node,
                self.has_requester == before.has_requester,
                self.synced_checkpoint == before.synced_checkpoint,
            decreases headers@.len() - i,
        {
            proof {
                assert(headers@.subrange(0, i + 1).drop_last() =~= headers@.subrange(0, i as int));
            }
            self.header_cache.insert(headers[i].block_hash, headers[i]);
            i += 1;
        }
        assert(headers@.subrange(0, i as int) =~= headers@);
    }
}

/// No header is kept once its filter came, so that the cache does not grow with the chain.
pub proof fn law_handled_headers_are_dropped(
    cache: Map<BlockHash, IndexedHeader>,
    block_hash: BlockHash,
    height: u32,
    has_match: bool,
)
    ensures
        !cache_after(
            cache,
            KyotoEvent::IndexedFilter { block_hash, height, has_match },
        ).dom().contains(block_hash),
{
}

/// The result of a start.
pub fn connection_result(wait: ConnectionWait) -> (result: Result<(), Error>)
    ensures
        result == (if wait == ConnectionWait::ConnectionsMet {
            Ok::<(), Error>(())
        } else {
            Err::<(), Error>(Error::ConnectionFailed)
        }),
{
    match wait {
        ConnectionWait::ConnectionsMet => Ok(()),
        ConnectionWait::NodeEnded => Err(Error::ConnectionFailed),
        ConnectionWait::TimedOut => Err(Error::ConnectionFailed),
    }
}

/// Whether a published checkpoint is what a call waits for.
pub fn is_synced_to(checkpoint: Option<BestBlock>, tip_height: u32) -> (synced: bool)
    ensures
        synced == (checkpoint matches Some(cp) && cp.height >= tip_height),
{
    match checkpoint {
        Some(cp) => cp.height >= tip_height,
        None => false,
    }
}

/// Why a call that waits for a sync fails, going by whether the node can be asked, whether it told its
/// tip, and whether checkpoints are still published.
pub fn wait_until_synced(has_requester: bool, tip_known: bool, reached: bool) -> (result: Result<
    (),
    Error,
>)
    ensures
        result == (if has_requester && tip_known && reached {
            Ok::<(), Error>(())
        } else {
            Err::<(), Error>(Error::WalletOperationFailed)
        }),
{
    if has_requester && tip_known && reached {
        Ok(())
    } else {
        Err(Error::WalletOperationFailed)
    }
}

/// The block whose fee rate stands for all targets. `None` says that the update is skipped: there is no
/// tip yet, or none above the genesis block.
pub fn fee_rate_block(state: &KyotoState) -> (block: Result<Option<BlockHash>, Error>)
    ensures
        block == (match state.synced_checkpoint {
            None => Ok::<Option<BlockHash>, Error>(None),
            Some(checkpoint) => if checkpoint.height == 0 {
                Ok::<Option<BlockHash>, Error>(None)
            } else if state.has_requester {
                Ok::<Option<BlockHash>, Error>(Some(checkpoint.block_hash))
            } else {
                Err::<Option<BlockHash>, Error>(Error::FeerateEstimationUpdateFailed)
            },
        }),
{
    match state.synced_checkpoint {
        None => Ok(None),
        Some(checkpoint) => {
            if checkpoint.height == 0 {
                Ok(None)
            } else if state.has_requester {
                Ok(Some(checkpoint.block_hash))
            } else {
                Err(Error::FeerateEstimationUpdateFailed)
            }
        },
    }
}

/// The new fee rates: the rate of one block, adjusted to each target.
pub fn fee_rate_cache_from_kyoto<A: Fn(ConfirmationTarget, u64) -> u64>(
    average_fee_rate: Option<u64>,
    targets: &Vec<ConfirmationTarget>,
    adjust: &A,
) -> (cache: Result<FeeRateCache, Error>)
    requires
        targets@.no_duplicates(),
        forall|target: ConfirmationTarget, rate: u64| #[trigger]
            call_requires(adjust, (target, rate)),
    ensures
        match average_fee_rate {
            Some(rate) => cache matches Ok(cache) && crate::chain::fees::holds_rates(
                cache@,
                targets@,
                Seq::new(targets@.len(), |i: int| rate),
                *adjust,
            ),
            None => cache == Err::<FeeRateCache, Error>(Error::FeerateEstimationUpdateFailed),
        },
{
    match average_fee_rate {
        None => Err(Error::FeerateEstimationUpdateFailed),
        Some(rate) => {
            let mut rates: Vec<u64> = Vec::new();
            let mut i: usize = 0;
            while i < targets.len()
                invariant
                    i <= targets@.len(),
                    rates@.len() == i,
                    forall|j: int| 0 <= j < i ==> rates@[j] == rate,
                decreases targets@.len() - i,
            {
                rates.push(rate);
                i += 1;
            }
            assert(rates@ =~= Seq::new(targets@.len(), |i: int| rate));
            Ok(fee_rate_cache(targets, &rates, adjust))
        },
    }
}

/// The new fee rates from an Esplora server.
pub fn fee_rate_cache_from_esplora<
    R: Fn(ConfirmationTarget) -> u64,
    A: Fn(ConfirmationTarget, u64) -> u64,
>(
    network: Network,
    reply: EstimatesReply,
    targets: &Vec<ConfirmationTarget>,
    estimate: &R,
    adjust: &A,
) -> (cache: Result<FeeRateCache, Error>)
    requires
        targets@.no_duplicates(),
        forall|target: ConfirmationTarget| #[trigger] call_requires(estimate, (target,)),
        forall|target: ConfirmationTarget, rate: u64| #[trigger]
            call_requires(adjust, (target, rate)),
    ensures
        match crate::chain::esplora::fee_update_error(network, reply) {
            Some(e) => cache == Err::<FeeRateCache, Error>(e),
            None => cache matches Ok(cache) && exists|rates: Seq<u64>|
                #![trigger crate::chain::fees::are_rates_for(rates, targets@, *estimate)]
                crate::chain::fees::are_rates_for(rates, targets@, *estimate)
                    && crate::chain::fees::holds_rates(cache@, targets@, rates, *adjust),
        },
{
    crate::chain::esplora::update_fee_rate_estimates(network, reply, targets, estimate, adjust)
}

/// The new fee rates from an Electrum server.
pub fn fee_rate_cache_from_electrum<A: Fn(ConfirmationTarget, u64) -> u64>(
    network: Network,
    targets: &Vec<ConfirmationTarget>,
    estimates: TaskEnd<Vec<u64>>,
    adjust: &A,
) -> (cache: Result<FeeRateCache, Error>)
    requires
        targets@.no_duplicates(),
        forall|target: ConfirmationTarget, rate: u64| #[trigger]
            call_requires(adjust, (target, rate)),
    ensures
        match crate::chain::electrum::fee_update_error(network, targets@.len() as int, estimates) {
            Some(e) => cache == Err::<FeeRateCache, Error>(e),
            None => cache matches Ok(cache) && crate::chain::fees::holds_rates(
                cache@,
                targets@,
                estimates->Finished_0@,
                *adjust,
            ),
        },
{
    get_fee_rate_cache_update(network, targets, estimates, adjust)
}

/// Dropping headers drops those of just these blocks.
pub proof fn law_headers_are_dropped_by_block(
    cache: Map<BlockHash, IndexedHeader>,
    headers: Seq<IndexedHeader>,
    hash: BlockHash,
)
    ensures
        without_headers(cache, headers).dom().contains(hash) <==> cache.dom().contains(hash)
            && !exists|i: int|
            0 <= i < headers.len() && (#[trigger] headers[i]).block_hash == hash,
        without_headers(cache, headers).dom().contains(hash) ==> without_headers(
            cache,
            headers,
        )[hash] == cache[hash],
    decreases headers.len(),
{
    if headers.len() > 0 {
        let front = headers.drop_last();
        law_headers_are_dropped_by_block(cache, front, hash);
        assert(headers[headers.len() - 1] == headers.last());
        if exists|i: int| 0 <= i < front.len() && (#[trigger] front[i]).block_hash == hash {
            let i = choose|i: int| 0 <= i < front.len() && (#[trigger] front[i]).block_hash == hash;
            assert(headers[i] == front[i]);
        }
        if exists|i: int| 0 <= i < headers.len() && (#[trigger] headers[i]).block_hash == hash {
            let i = choose|i: int|
                0 <= i < headers.len() && (#[trigger] headers[i]).block_hash == hash;
            if i < front.len() {
                assert(front[i] == headers[i]);
            }
        }
    }
}

/// Keeping headers keeps each of them, the last one of a block where there are several, and leaves the
/// headers of other blocks.
pub proof fn law_headers_are_kept_by_block(
    cache: Map<BlockHash, IndexedHeader>,
    headers: Seq<IndexedHeader>,
    i: int,
    hash: BlockHash,
)
    ensures
        0 <= i < headers.len() && (forall|j: int|
            i < j < headers.len() ==> (#[trigger] headers[j]).block_hash != headers[i].block_hash)
            ==> with_headers(cache, headers).dom().contains(headers[i].block_hash) && with_headers(
            cache,
            headers,
        )[headers[i].block_hash] == headers[i],
        (forall|j: int| 0 <= j < headers.len() ==> (#[trigger] headers[j]).block_hash != hash) ==> (
        with_headers(cache, headers).dom().contains(hash) <==> cache.dom().contains(hash)) && (
        cache.dom().contains(hash) ==> with_headers(cache, headers)[hash] == cache[hash]),
    decreases headers.len(),
{
    if headers.len() > 0 {
        let front = headers.drop_last();
        let last = headers.len() - 1;
        law_headers_are_kept_by_block(cache, front, i, hash);
        assert(headers[last] == headers.last());
        if 0 <= i < last && (forall|j: int|
            i < j < headers.len() ==> (#[trigger] headers[j]).block_hash
                != headers[i].block_hash) {
            assert(front[i] == headers[i]);
            assert forall|j: int| i < j < front.len() implies (#[trigger] front[j]).block_hash
                != front[i].block_hash by {
                assert(front[j] == headers[j]);
            }
            assert(headers[last].block_hash != headers[i].block_hash);
        }
        if forall|j: int| 0 <= j < headers.len() ==> (#[trigger] headers[j]).block_hash != hash {
            assert forall|j: int| 0 <= j < front.len() implies (#[trigger] front[j]).block_hash
                != hash by {
                assert(front[j] == headers[j]);
            }
        }
    }
}

/// What becomes of the headers that await their filters: a connected one is kept; a reorganization drops
/// those of the blocks that left the chain, and then keeps those of the new ones; a filter drops that of its
/// block; and everything else leaves them.
pub proof fn law_headers_await_their_filters(
    cache: Map<BlockHash, IndexedHeader>,
    header: IndexedHeader,
    accepted: Vec<IndexedHeader>,
    reorganized: Vec<IndexedHeader>,
    filtered: BlockHash,
    height: u32,
    has_match: bool,
    tip: BestBlock,
    other: BlockHash,
)
    ensures
        ({
            let connected = cache_after(cache, KyotoEvent::Connected(header));
            let filter = KyotoEvent::IndexedFilter { block_hash: filtered, height, has_match };
            &&& connected.dom().contains(header.block_hash)
            &&& connected[header.block_hash] == header
            &&& other != header.block_hash && cache.dom().contains(other)
                ==> connected.dom().contains(other) && connected[other] == cache[other]
            &&& other != header.block_hash && connected.dom().contains(other)
                ==> cache.dom().contains(other)
            &&& cache_after(cache, KyotoEvent::Reorganized { accepted, reorganized })
                == with_headers(without_headers(cache, reorganized@), accepted@)
            &&& cache_after(cache, filter).dom().contains(other) <==> cache.dom().contains(other)
                && other != filtered
            &&& other != filtered && cache.dom().contains(other) ==> cache_after(
                cache,
                filter,
            )[other] == cache[other]
            &&& cache_after(cache, KyotoEvent::ForkAdded) == cache
            &&& cache_after(cache, KyotoEvent::Block) == cache
            &&& cache_after(cache, KyotoEvent::FiltersSynced { tip }) == cache
        }),
{
}

/// A reorganization disconnects the blocks down to the parent of the first one that left the chain, and only
/// a reorganization does. The headers that come in are applied in their order.
pub proof fn law_reorganizations_go_back_to_the_parent(
    event: KyotoEvent,
    accepted: Vec<IndexedHeader>,
    reorganized: Vec<IndexedHeader>,
)
    ensures
        disconnect_for(event) is Some ==> event is Reorganized,
        reorganized@.len() == 0 ==> disconnect_for(
            KyotoEvent::Reorganized { accepted, reorganized },
        ) is None,
        reorganized@.len() > 0 ==> ({
            let at = disconnect_for(KyotoEvent::Reorganized { accepted, reorganized });
            &&& at is Some
            &&& at->0.block_hash == reorganized@[0].prev_blockhash
            &&& reorganized@[0].height > 0 ==> at->0.height + 1 == reorganized@[0].height
        }),
        headers_for(KyotoEvent::Reorganized { accepted, reorganized }) == accepted@,
        event matches KyotoEvent::Connected(header) ==> headers_for(event) == seq![header],
        !(event is Connected) && !(event is Reorganized) ==> headers_for(event).len() == 0,
{
}

/// A block is connected for its filter exactly if its header awaits that and it is above the tip of the
/// channels: it is fetched where the filter matches, and connected by its header alone where it does not.
pub proof fn law_matching_blocks_are_fetched(
    cache: Map<BlockHash, IndexedHeader>,
    event: KyotoEvent,
    block_hash: BlockHash,
    height: u32,
    tip_height: u32,
)
    ensures
        ({
            let matching = KyotoEvent::IndexedFilter { block_hash, height, has_match: true };
            let passing = KyotoEvent::IndexedFilter { block_hash, height, has_match: false };
            if cache.dom().contains(block_hash) && height > tip_height {
                &&& block_action_for(cache, matching, tip_height)
                    == (BlockAction::FetchAndConnect { block_hash, height })
                &&& block_action_for(cache, passing, tip_height) == (BlockAction::ConnectFiltered {
                    header: cache[block_hash],
                    height,
                })
            } else {
                &&& block_action_for(cache, matching, tip_height) is Nothing
                &&& block_action_for(cache, passing, tip_height) is Nothing
            }
        }),
        !(event is IndexedFilter) ==> block_action_for(cache, event, tip_height) is Nothing,
{
}

/// What is made of the state of a node: a start succeeds once there are connections; a tip is synced to once
/// the checkpoint reaches it; and fee rates are asked for the block of the checkpoint, unless that is the
/// very first one.
pub proof fn law_checkpoints_tell_how_far_a_node_is(
    wait: ConnectionWait,
    connected: Result<(), Error>,
    checkpoint: Option<BestBlock>,
    tip_height: u32,
    synced: bool,
    state: KyotoState,
    block: Result<Option<BlockHash>, Error>,
)
    requires
        call_ensures(connection_result, (wait,), connected),
        call_ensures(is_synced_to, (checkpoint, tip_height), synced),
        call_ensures(fee_rate_block, (&state,), block),
    ensures
        connected is Ok <==> wait is ConnectionsMet,
        connected matches Err(e) ==> e == Error::ConnectionFailed,
        synced <==> checkpoint is Some && checkpoint->0.height >= tip_height,
        state.synced_checkpoint is None ==> block == Ok::<Option<BlockHash>, Error>(None),
        state.synced_checkpoint matches Some(cp) ==> {
            &&& cp.height == 0 ==> block == Ok::<Option<BlockHash>, Error>(None)
            &&& cp.height > 0 && state.has_requester ==> block == Ok::<Option<BlockHash>, Error>(
                Some(cp.block_hash),
            )
            &&& cp.height > 0 && !state.has_requester ==> block == Err::<
                Option<BlockHash>,
                Error,
            >(Error::FeerateEstimationUpdateFailed)
        },
{
}

/// A sync is waited for with success exactly if the node can be asked, the tip is known and it is reached.
pub proof fn law_a_sync_needs_a_node_and_a_tip(
    has_requester: bool,
    tip_known: bool,
    reached: bool,
    result: Result<(), Error>,
)
    requires
        call_ensures(wait_until_synced, (has_requester, tip_known, reached), result),
    ensures
        result is Ok <==> has_requester && tip_known && reached,
        result matches Err(e) ==> e == Error::WalletOperationFailed,
{
}

/// A node that was never started is started as it is, and one that was is built anew from its checkpoint,
/// without what it knew.
pub proof fn law_nodes_are_built_anew_from_their_checkpoint(
    state: &mut KyotoState,
    rebuild: Option<RebuildPlan>,
)
    requires
        call_ensures(KyotoState::start, (state,), rebuild),
    ensures
        rebuild is None <==> old(state).has_node,
        rebuild matches Some(plan) ==> plan.checkpoint == old(state).synced_checkpoint
            && final(state).has_requester && final(state).synced_checkpoint is None
            && final(state).header_cache@.dom() =~= Set::empty(),
        !final(state).has_node,
        old(state).has_node ==> final(state).synced_checkpoint == old(state).synced_checkpoint,
{
}

/// What the events of a node do: a header is applied and kept; the end of the filters is published and noted
/// as the checkpoint; and a block above the tip whose filter matches is fetched.
pub proof fn law_events_of_a_node_are_handled(
    connected: &mut KyotoState,
    header: IndexedHeader,
    tip_height: u32,
    by_header: KyotoAction,
    synced: &mut KyotoState,
    tip: BestBlock,
    by_end: KyotoAction,
    filtered: &mut KyotoState,
    block_hash: BlockHash,
    height: u32,
    by_filter: KyotoAction,
)
    requires
        call_ensures(
            KyotoState::on_event,
            (connected, KyotoEvent::Connected(header), tip_height),
            by_header,
        ),
        call_ensures(
            KyotoState::on_event,
            (synced, KyotoEvent::FiltersSynced { tip }, tip_height),
            by_end,
        ),
        call_ensures(
            KyotoState::on_event,
            (
                filtered,
                KyotoEvent::IndexedFilter { block_hash, height, has_match: true },
                tip_height,
            ),
            by_filter,
        ),
    ensures
        by_header.apply_headers@ == seq![header],
        by_header.disconnect is None,
        by_header.publish is None,
        by_header.block is Nothing,
        final(connected).header_cache@.dom().contains(header.block_hash),
        final(connected).header_cache@[header.block_hash] == header,
        by_end.publish == Some(tip),
        final(synced).synced_checkpoint == Some(tip),
        final(synced).header_cache@ == old(synced).header_cache@,
        by_filter.publish is None,
        by_filter.apply_headers@.len() == 0,
        old(filtered).header_cache@.dom().contains(block_hash) && height > tip_height
            ==> by_filter.block == (BlockAction::FetchAndConnect { block_hash, height }),
        height <= tip_height ==> by_filter.block is Nothing,
        !final(filtered).header_cache@.dom().contains(block_hash),
{
    law_matching_blocks_are_fetched(
        old(filtered).header_cache@,
        KyotoEvent::Block,
        block_hash,
        height,
        tip_height,
    );
}

} // verus!
