//! Following the chain by compact block filters.
use crate::chain::electrum::get_fee_rate_cache_update;
use crate::chain::fees::{fee_rate_cache, ConfirmationTarget, FeeRateCache};
use crate::chain::filters::BlockFilter;
use crate::chain::scripts::ScriptSet;
use crate::chain::status::TaskEnd;
use crate::error::Error;
use crate::sort::sorted;
use crate::transaction::Transaction;
use crate::types::{BestBlock, BlockHash, Network};
use crate::vec_map::{MapKey, VecMap};
use vstd::prelude::*;

verus! {

/// Walk back this many blocks from the wallet's persisted tip when deriving the resume checkpoint, so a
/// recent reorg cannot strand the node above the new best chain.
pub const REORG_SAFETY_BLOCKS: u32 = 7;

/// Number of most recent blocks whose coinbase-derived fee rates feed the native estimator.
pub const FEE_WINDOW_BLOCKS: u32 = 14;

/// Peer response timeout.
pub const DEFAULT_RESPONSE_TIMEOUT_SECS: u64 = 30;

/// Number of peers that must agree on filter headers before they're accepted.
pub const DEFAULT_REQUIRED_PEERS: u8 = 1;

/// Maximum consecutive failures of the node before the restart loop gives up.
pub const MAX_RESTART_RETRIES: u32 = 5;

/// Initial backoff delay between restart attempts; doubles each failure.
pub const INITIAL_BACKOFF_MS: u64 = 500;

/// Retry matched block downloads before surfacing a sync failure.
pub const CBF_BLOCK_FETCH_RETRIES: u8 = 3;

/// Per-attempt timeout when downloading a block from a peer.
pub const CBF_BLOCK_FETCH_TIMEOUT_SECS: u64 = 10;

/// Timeout of an Esplora server that is asked for fee rates.
pub const ESPLORA_TIMEOUT: u64 = 2;

/// How often an Electrum server that is asked for fee rates is retried.
pub const ELECTRUM_FEE_NUM_RETRIES: u8 = 3;

/// How long an Electrum server is asked for fee rates.
pub const ELECTRUM_FEE_TIMEOUT_SECS: u64 = 10;

/// Lower bound for native fee estimates (1 sat/vB).
pub const CBF_MIN_FEERATE_SAT_PER_KWU: u64 = 250;

impl MapKey for u32 {
    fn key_eq(&self, other: &Self) -> (same: bool) {
        *self == *other
    }

    fn key_copy(&self) -> (copy: Self) {
        *self
    }
}

/// How far the sync is.
#[derive(Clone, Copy, Debug, PartialEq, Eq, Structural)]
pub enum CbfSyncState {
    Active {
        /// Highest tip whose preceding chain updates have been applied to all listeners.
        applied_tip: Option<u32>,
        /// Whether the node has reported catching up to the network tip and the resulting blocks have
        /// been applied.
        synced_to_tip: bool,
    },
    Failed(Error),
}

/// A state that is no longer up to date with the tip.
pub open spec fn behind_tip(state: CbfSyncState) -> CbfSyncState {
    match state {
        CbfSyncState::Active { applied_tip, .. } => CbfSyncState::Active {
            applied_tip,
            synced_to_tip: false,
        },
        CbfSyncState::Failed(e) => CbfSyncState::Failed(e),
    }
}

/// Marks that we are applying a block past the last tip, so a sync that is asked for after new blocks
/// are mined waits for the next tip. Tells whether the state changed.
pub fn mark_syncing(state: &mut CbfSyncState) -> (changed: bool)
    ensures
        *final(state) == behind_tip(*old(state)),
        changed == (*final(state) != *old(state)),
{
    match *state {
        CbfSyncState::Active { applied_tip, synced_to_tip } => {
            if synced_to_tip {
                *state = CbfSyncState::Active { applied_tip, synced_to_tip: false };
                true
            } else {
                false
            }
        },
        CbfSyncState::Failed(_) => false,
    }
}

/// A change of the chain that is applied to the listeners.
#[derive(Clone, Copy, Debug)]
pub enum ChainOp {
    /// A block whose filter matched.
    ConnectFull { height: u32, block_hash: BlockHash },
    /// A block whose filter did not match.
    ConnectFiltered { height: u32 },
    /// Everything above a block is undone.
    Disconnect { fork_point: BestBlock },
    /// The filters are synced up to a tip.
    Synced { tip_height: u32 },
    /// The sync failed.
    Failed { error: Error },
}

/// What is done with a change of the chain.
#[derive(Clone, Copy, Debug, PartialEq, Eq, Structural)]
pub enum ApplyAction {
    /// Nothing: the block is out of sequence.
    SkipBlock,
    /// The listeners are handed the block. With a native fee source its fee rate is noted.
    ConnectFull { note_fee_rate: bool },
    /// The listeners are handed the header.
    ConnectFiltered,
    /// The listeners undo everything above the block.
    Disconnect,
    /// The tip is published. Where it is new, the time of the sync is written down.
    PublishTip { write_metrics: bool },
    /// Nothing: there are blocks left to apply below the tip.
    AwaitBlocks,
    /// The failure is published.
    PublishFailure,
}

/// Applies the changes of the chain in their order.
pub struct BlockApplicator {
    /// The height of the next block.
    pub next_height: u32,
    pub sync_state: CbfSyncState,
    /// Whether fee rates are taken from blocks.
    pub native_fees: bool,
}

/// The tip that was published before.
pub open spec fn published_tip(state: CbfSyncState) -> Option<u32> {
    match state {
        CbfSyncState::Active { applied_tip, .. } => applied_tip,
        CbfSyncState::Failed(_) => None,
    }
}

/// Whether a tip was published before, or a higher one.
pub open spec fn is_published(state: CbfSyncState, tip_height: u32) -> bool {
    published_tip(state) matches Some(height) && height >= tip_height
}

impl BlockApplicator {
    /// All blocks up to the published tip were applied.
    pub open spec fn tip_is_applied(self) -> bool {
        published_tip(self.sync_state) matches Some(tip) ==> tip < self.next_height
    }

    /// What is done with a change of the chain.
    pub open spec fn action_for(self, op: ChainOp) -> ApplyAction {
        match op {
            ChainOp::ConnectFull { height, .. } => if height == self.next_height {
                ApplyAction::ConnectFull { note_fee_rate: self.native_fees }
            } else {
                ApplyAction::SkipBlock
            },
            ChainOp::ConnectFiltered { height } => if height == self.next_height {
                ApplyAction::ConnectFiltered
            } else {
                ApplyAction::SkipBlock
            },
            ChainOp::Disconnect { .. } => ApplyAction::Disconnect,
            ChainOp::Synced { tip_height } => if self.next_height > tip_height {
                ApplyAction::PublishTip {
                    write_metrics: !is_published(self.sync_state, tip_height),
                }
            } else {
                ApplyAction::AwaitBlocks
            },
            ChainOp::Failed { .. } => ApplyAction::PublishFailure,
        }
    }

    /// Where a change of the chain leaves the applicator.
    pub open spec fn after(self, op: ChainOp) -> Self {
        match (op, self.action_for(op)) {
            (ChainOp::ConnectFull { .. }, ApplyAction::ConnectFull { .. }) => BlockApplicator {
                next_height: (self.next_height + 1) as u32,
                sync_state: behind_tip(self.sync_state),
                ..self
            },
            (ChainOp::ConnectFiltered { .. }, ApplyAction::ConnectFiltered) => BlockApplicator {
                next_height: (self.next_height + 1) as u32,
                sync_state: behind_tip(self.sync_state),
                ..self
            },
            (ChainOp::Disconnect { fork_point }, _) => BlockApplicator {
                next_height: (fork_point.height + 1) as u32,
                sync_state: CbfSyncState::Active {
                    applied_tip: Some(fork_point.height),
                    synced_to_tip: false,
                },
                ..self
            },
            (ChainOp::Synced { tip_height }, ApplyAction::PublishTip { .. }) => BlockApplicator {
                sync_state: CbfSyncState::Active {
                    applied_tip: if is_published(self.sync_state, tip_height) {
                        published_tip(self.sync_state)
                    } else {
                        Some(tip_height)
                    },
                    synced_to_tip: true,
                },
                ..self
            },
            (ChainOp::Failed { error }, _) => BlockApplicator {
                sync_state: CbfSyncState::Failed(error),
                ..self
            },
            _ => self,
        }
    }

    /// Begins above the block that all listeners know.
    pub fn new(best_block_height: u32, native_fees: bool) -> (applicator: Self)
        requires
            best_block_height < u32::MAX,
        ensures
            applicator.next_height == best_block_height + 1,
            applicator.sync_state == (CbfSyncState::Active {
                applied_tip: Some(best_block_height),
                synced_to_tip: false,
            }),
            applicator.native_fees == native_fees,
            applicator.tip_is_applied(),
    {
        BlockApplicator {
            next_height: best_block_height + 1,
            sync_state: CbfSyncState::Active {
                applied_tip: Some(best_block_height),
                synced_to_tip: false,
            },
            native_fees,
        }
    }

    /// Publishes a tip. Tells whether it is new.
    pub fn publish_synced_tip(&mut self, tip_height: u32) -> (is_new: bool)
        ensures
            is_new == !is_published(old(self).sync_state, tip_height),
            final(self).next_height == old(self).next_height,
            final(self).native_fees == old(self).native_fees,
            final(self).sync_state == (CbfSyncState::Active {
                applied_tip: if is_new {
                    Some(tip_height)
                } else {
                    published_tip(old(self).sync_state)
                },
                synced_to_tip: true,
            }),
    {
        let already_published = match self.sync_state {
            CbfSyncState::Active { applied_tip, .. } => applied_tip,
            CbfSyncState::Failed(_) => None,
        };
        let is_new = match already_published {
            Some(height) => height < tip_height,
            None => true,
        };
        let applied_tip = if is_new {
            Some(tip_height)
        } else {
            already_published
        };
        self.sync_state = CbfSyncState::Active { applied_tip, synced_to_tip: true };
        is_new
    }

    /// Takes in a change of the chain. Blocks that are out of sequence are skipped; a tip is published
    /// only when all blocks up to it were applied.
    pub fn apply(&mut self, op: ChainOp) -> (action: ApplyAction)
        requires
            old(self).next_height < u32::MAX,
            op matches ChainOp::Disconnect { fork_point } ==> fork_point.height < u32::MAX,
        ensures
            action == old(self).action_for(op),
            *final(self) == old(self).after(op),
    {
        match op {
            ChainOp::ConnectFull { height, .. } => {
                if height != self.next_height {
                    return ApplyAction::SkipBlock;
                }
                self.next_height = self.next_height + 1;
                mark_syncing(&mut self.sync_state);
                ApplyAction::ConnectFull { note_fee_rate: self.native_fees }
            },
            ChainOp::ConnectFiltered { height } => {
                if height != self.next_height {
                    return ApplyAction::SkipBlock;
                }
                self.next_height = self.next_height + 1;
                mark_syncing(&mut self.sync_state);
                ApplyAction::ConnectFiltered
            },
            ChainOp::Disconnect { fork_point } => {
                self.next_height = fork_point.height + 1;
                self.sync_state = CbfSyncState::Active {
                    applied_tip: Some(fork_point.height),
                    synced_to_tip: false,
                };
                ApplyAction::Disconnect
            },
            ChainOp::Synced { tip_height } => {
                if self.next_height > tip_height {
                    let write_metrics = self.publish_synced_tip(tip_height);
                    ApplyAction::PublishTip { write_metrics }
                } else {
                    ApplyAction::AwaitBlocks
                }
            },
            ChainOp::Failed { error } => {
                self.sync_state = CbfSyncState::Failed(error);
                ApplyAction::PublishFailure
            },
        }
    }

    /// All blocks up to the published tip were applied, whatever changes come.
    pub proof fn law_the_published_tip_is_applied(self, op: ChainOp)
        requires
            self.tip_is_applied(),
            self.next_height < u32::MAX,
            op matches ChainOp::Disconnect { fork_point } ==> fork_point.height < u32::MAX,
        ensures
            self.after(op).tip_is_applied(),
    {
    }

    /// A block counts as caught up with only after the node reported a tip: every block that is
    /// connected or undone puts an end to that.
    pub proof fn law_new_blocks_end_being_synced(self, op: ChainOp)
        requires
            self.action_for(op) is ConnectFull || self.action_for(op) is ConnectFiltered
                || self.action_for(op) is Disconnect,
        ensures
            !(self.after(op).sync_state matches CbfSyncState::Active { synced_to_tip: true, .. }),
    {
    }
}

/// Whether the node runs.
#[derive(Clone, Copy, Debug, PartialEq, Eq, Structural)]
pub enum CbfRuntimeStatus {
    Started,
    Stopped,
}

/// Starts the node. Tells whether it was stopped before: one that runs is left alone.
pub fn start(
    status: &mut CbfRuntimeStatus,
    best_block_height: u32,
    native_fees: bool,
) -> (applicator: Option<BlockApplicator>)
    requires
        best_block_height < u32::MAX,
    ensures
        *final(status) == CbfRuntimeStatus::Started,
        match applicator {
            Some(applicator) => *old(status) == CbfRuntimeStatus::Stopped && applicator.next_height
                == best_block_height + 1 && applicator.sync_state == (CbfSyncState::Active {
                applied_tip: Some(best_block_height),
                synced_to_tip: false,
            }) && applicator.native_fees == native_fees,
            None => *old(status) == CbfRuntimeStatus::Started,
        },
{
    match *status {
        CbfRuntimeStatus::Started => None,
        CbfRuntimeStatus::Stopped => {
            *status = CbfRuntimeStatus::Started;
            Some(BlockApplicator::new(best_block_height, native_fees))
        },
    }
}

/// Stops the node. Tells whether it has to be told. Those who wait for a sync learn of it.
pub fn stop(status: &mut CbfRuntimeStatus, state: &mut CbfSyncState) -> (shut_down: bool)
    ensures
        *final(status) == CbfRuntimeStatus::Stopped,
        *final(state) == CbfSyncState::Failed(Error::NotRunning),
        shut_down == (*old(status) == CbfRuntimeStatus::Started),
{
    let shut_down = *status == CbfRuntimeStatus::Started;
    *status = CbfRuntimeStatus::Stopped;
    *state = CbfSyncState::Failed(Error::NotRunning);
    shut_down
}

/// How often the node failed, and how long the next pause is.
#[derive(Clone, Copy, Debug, PartialEq, Eq, Structural)]
pub struct RestartState {
    pub retries: u32,
    pub backoff_ms: u64,
}

/// What follows when the node has ended.
#[derive(Clone, Copy, Debug, PartialEq, Eq, Structural)]
pub enum RestartAction {
    /// It stays ended.
    End,
    /// It is built anew after a pause.
    RestartAfter { pause_ms: u64 },
}

/// Twice a pause, as far as it fits.
pub open spec fn doubled_ms(ms: u64) -> u64 {
    if 2 * ms <= u64::MAX {
        (2 * ms) as u64
    } else {
        u64::MAX
    }
}

impl RestartState {
    pub fn new() -> (state: Self)
        ensures
            state == (RestartState { retries: 0, backoff_ms: INITIAL_BACKOFF_MS }),
    {
        RestartState { retries: 0, backoff_ms: INITIAL_BACKOFF_MS }
    }

    /// What follows when the node has ended. One that failed is restarted, up to five times, after
    /// pauses that get twice as long each time.
    pub fn after_run(
        &mut self,
        failed: bool,
        status: &mut CbfRuntimeStatus,
        sync_state: &mut CbfSyncState,
    ) -> (action: RestartAction)
        requires
            old(self).retries <= MAX_RESTART_RETRIES,
        ensures
            action == (if failed && old(self).retries < MAX_RESTART_RETRIES {
                RestartAction::RestartAfter { pause_ms: old(self).backoff_ms }
            } else {
                RestartAction::End
            }),
            *final(self) == (if !failed {
                *old(self)
            } else {
                RestartState {
                    retries: (old(self).retries + 1) as u32,
                    backoff_ms: if action is End {
                        old(self).backoff_ms
                    } else {
                        doubled_ms(old(self).backoff_ms)
                    },
                }
            }),
            *final(status) == (if action is End {
                CbfRuntimeStatus::Stopped
            } else {
                *old(status)
            }),
            *final(sync_state) == (if !failed {
                CbfSyncState::Failed(Error::NotRunning)
            } else if action is End {
                CbfSyncState::Failed(Error::TxSyncFailed)
            } else {
                *old(sync_state)
            }),
    {
        if !failed {
            *status = CbfRuntimeStatus::Stopped;
            *sync_state = CbfSyncState::Failed(Error::NotRunning);
            return RestartAction::End;
        }
        self.retries = self.retries + 1;
        if self.retries > MAX_RESTART_RETRIES {
            *status = CbfRuntimeStatus::Stopped;
            *sync_state = CbfSyncState::Failed(Error::TxSyncFailed);
            return RestartAction::End;
        }
        let pause_ms: u64 = self.backoff_ms;
        self.backoff_ms = if pause_ms <= u64::MAX / 2 {
            pause_ms * 2
        } else {
            u64::MAX
        };
        RestartAction::RestartAfter { pause_ms }
    }
}

/// Whether a node that was built anew is run. It is not if it was stopped during the pause.
pub fn after_rebuild(
    status: &mut CbfRuntimeStatus,
    sync_state: &mut CbfSyncState,
    best_block_height: u32,
) -> (run: bool)
    ensures
        run == (*old(status) == CbfRuntimeStatus::Started),
        *final(status) == *old(status),
        *final(sync_state) == (if run {
            CbfSyncState::Active { applied_tip: Some(best_block_height), synced_to_tip: false }
        } else {
            CbfSyncState::Failed(Error::NotRunning)
        }),
{
    match *status {
        CbfRuntimeStatus::Stopped => {
            *sync_state = CbfSyncState::Failed(Error::NotRunning);
            false
        },
        CbfRuntimeStatus::Started => {
            *sync_state = CbfSyncState::Active {
                applied_tip: Some(best_block_height),
                synced_to_tip: false,
            };
            true
        },
    }
}

/// What a call that waits for a sync returns, if it is over.
pub fn wait_until_synced(status: CbfRuntimeStatus, state: CbfSyncState) -> (result: Option<
    Result<(), Error>,
>)
    ensures
        result == (if status == CbfRuntimeStatus::Stopped {
            Some(Err::<(), Error>(Error::NotRunning))
        } else {
            synced_result(state)
        }),
{
    match status {
        CbfRuntimeStatus::Stopped => Some(Err(Error::NotRunning)),
        CbfRuntimeStatus::Started => after_state_change(state),
    }
}

/// What a state means for those who wait for a sync: it is over, or they wait on.
pub open spec fn synced_result(state: CbfSyncState) -> Option<Result<(), Error>> {
    match state {
        CbfSyncState::Active { synced_to_tip, .. } => if synced_to_tip {
            Some(Ok::<(), Error>(()))
        } else {
            None
        },
        CbfSyncState::Failed(e) => Some(Err::<(), Error>(e)),
    }
}

/// What a state means for those who wait for a sync: it is over, or they wait on.
pub fn after_state_change(state: CbfSyncState) -> (result: Option<Result<(), Error>>)
    ensures
        result == synced_result(state),
{
    match state {
        CbfSyncState::Active { synced_to_tip, .. } => {
            if synced_to_tip {
                Some(Ok(()))
            } else {
                None
            }
        },
        CbfSyncState::Failed(e) => Some(Err(e)),
    }
}

/// What the node reports.
#[derive(Clone, Copy, Debug)]
pub enum CbfEvent {
    /// The filter of a block.
    IndexedFilter { block_hash: BlockHash, height: u32 },
    /// The filters are synced up to a tip.
    FiltersSynced { tip_height: u32 },
    /// A header was connected.
    HeaderConnected,
    /// Headers were replaced. The lowest of them had this parent and this height.
    Reorganized { lowest: Option<(BlockHash, u32)> },
    /// A header was added to another branch.
    ForkAdded,
}

/// What is done next with what the node reported.
#[derive(Clone, Copy, Debug)]
pub enum EventStep {
    /// The filter is matched against the scripts.
    MatchFilter { block_hash: BlockHash, height: u32 },
    /// The block is fetched, for the so-manieth time.
    FetchBlock { block_hash: BlockHash, height: u32, attempt: u8 },
    /// The header is fetched.
    FetchHeader { block_hash: BlockHash, height: u32 },
    /// A change of the chain is applied, and the next report awaited.
    Apply(ChainOp),
    /// A failure is published, and no more reports are taken.
    FailAndEnd(Error),
    /// The next report is awaited.
    AwaitEvent,
}

/// The point that a replaced chain branched off at.
pub open spec fn fork_point_of(parent: BlockHash, height: u32) -> BestBlock {
    BestBlock {
        block_hash: parent,
        height: if height == 0 {
            0
        } else {
            (height - 1) as u32
        },
    }
}

/// Takes in what the node reported. A new filter says that there is a block to apply.
pub fn on_event(
    event: CbfEvent,
    status: CbfRuntimeStatus,
    sync_state: &mut CbfSyncState,
) -> (step: EventStep)
    ensures
        *final(sync_state) == (if event is IndexedFilter {
            behind_tip(*old(sync_state))
        } else {
            *old(sync_state)
        }),
        step == (match event {
            CbfEvent::IndexedFilter { block_hash, height } => match status {
                CbfRuntimeStatus::Started => EventStep::MatchFilter { block_hash, height },
                CbfRuntimeStatus::Stopped => EventStep::FailAndEnd(Error::NotRunning),
            },
            CbfEvent::FiltersSynced { tip_height } => EventStep::Apply(
                ChainOp::Synced { tip_height },
            ),
            CbfEvent::HeaderConnected => EventStep::AwaitEvent,
            CbfEvent::Reorganized { lowest } => match lowest {
                Some((parent, height)) => EventStep::Apply(
                    ChainOp::Disconnect { fork_point: fork_point_of(parent, height) },
                ),
                None => EventStep::AwaitEvent,
            },
            CbfEvent::ForkAdded => EventStep::AwaitEvent,
        }),
{
    match event {
        CbfEvent::IndexedFilter { block_hash, height } => {
            mark_syncing(sync_state);
            match status {
                CbfRuntimeStatus::Started => EventStep::MatchFilter { block_hash, height },
                CbfRuntimeStatus::Stopped => EventStep::FailAndEnd(Error::NotRunning),
            }
        },
        CbfEvent::FiltersSynced { tip_height } => EventStep::Apply(ChainOp::Synced { tip_height }),
        CbfEvent::HeaderConnected => EventStep::AwaitEvent,
        CbfEvent::Reorganized { lowest } => match lowest {
            Some((parent, height)) => {
                let fork_height: u32 = if height == 0 {
                    0
                } else {
                    height - 1
                };
                EventStep::Apply(
                    ChainOp::Disconnect {
                        fork_point: BestBlock { block_hash: parent, height: fork_height },
                    },
                )
            },
            None => EventStep::AwaitEvent,
        },
        CbfEvent::ForkAdded => EventStep::AwaitEvent,
    }
}

/// What follows when a filter was matched: the block is fetched where it matched, else the header.
pub fn after_match(block_hash: BlockHash, height: u32, matched: bool) -> (step: EventStep)
    ensures
        step == (if matched {
            EventStep::FetchBlock { block_hash, height, attempt: 1 }
        } else {
            EventStep::FetchHeader { block_hash, height }
        }),
{
    if matched {
        EventStep::FetchBlock { block_hash, height, attempt: 1 }
    } else {
        EventStep::FetchHeader { block_hash, height }
    }
}

/// Matches a filter against all scripts that are looked out for: those that the wallet watches and those
/// that were registered. `None` where the filter is malformed.
pub fn match_filter(filter: &BlockFilter, registered: &ScriptSet, watched: Vec<Vec<u8>>) -> (step:
    Option<EventStep>)
    ensures
        match filter.matches(crate::chain::scripts::scripts_view(watched@) + registered@) {
            Some(matched) => step == Some(
                if matched {
                    EventStep::FetchBlock {
                        block_hash: filter.block_hash,
                        height: filter.height,
                        attempt: 1,
                    }
                } else {
                    EventStep::FetchHeader { block_hash: filter.block_hash, height: filter.height }
                },
            ),
            None => step is None,
        },
{
    let scripts = registered.with_watched(watched);
    match filter.contains_any(&scripts) {
        Some(matched) => Some(after_match(filter.block_hash, filter.height, matched)),
        None => None,
    }
}

/// How a fetch of a block ended.
#[derive(Clone, Copy, Debug, PartialEq, Eq, Structural)]
pub enum BlockFetch {
    /// The node has stopped.
    NotRunning,
    /// The block did not come, or not in time.
    Failed,
    /// The block came, and is at this height.
    Fetched { height: u32 },
}

/// What follows a fetch of a block: it is tried three times.
pub fn after_block_fetch(
    block_hash: BlockHash,
    height: u32,
    attempt: u8,
    fetch: BlockFetch,
) -> (step: EventStep)
    requires
        1 <= attempt <= CBF_BLOCK_FETCH_RETRIES,
    ensures
        step == (match fetch {
            BlockFetch::NotRunning => EventStep::FailAndEnd(Error::NotRunning),
            BlockFetch::Failed => if attempt < CBF_BLOCK_FETCH_RETRIES {
                EventStep::FetchBlock { block_hash, height, attempt: (attempt + 1) as u8 }
            } else {
                EventStep::FailAndEnd(Error::TxSyncFailed)
            },
            BlockFetch::Fetched { height } => EventStep::Apply(
                ChainOp::ConnectFull { height, block_hash },
            ),
        }),
{
    match fetch {
        BlockFetch::NotRunning => EventStep::FailAndEnd(Error::NotRunning),
        BlockFetch::Failed => {
            if attempt < CBF_BLOCK_FETCH_RETRIES {
                EventStep::FetchBlock { block_hash, height, attempt: attempt + 1 }
            } else {
                EventStep::FailAndEnd(Error::TxSyncFailed)
            }
        },
        BlockFetch::Fetched { height } => EventStep::Apply(
            ChainOp::ConnectFull { height, block_hash },
        ),
    }
}

/// How a fetch of a header ended.
#[derive(Clone, Copy, Debug)]
pub enum HeaderFetch {
    Failed,
    /// There is none at that height.
    Missing,
    /// The header of the block at that height.
    Found { block_hash: BlockHash, height: u32 },
}

/// What follows a fetch of a header. Where the block was replaced meanwhile its filter is skipped.
pub fn after_header_fetch(block_hash: BlockHash, fetch: HeaderFetch) -> (step: EventStep)
    ensures
        step == (match fetch {
            HeaderFetch::Found { block_hash: found, height } => if found == block_hash {
                EventStep::Apply(ChainOp::ConnectFiltered { height })
            } else {
                EventStep::AwaitEvent
            },
            _ => EventStep::FailAndEnd(Error::TxSyncFailed),
        }),
{
    match fetch {
        HeaderFetch::Found { block_hash: found, height } => {
            if found == block_hash {
                EventStep::Apply(ChainOp::ConnectFiltered { height })
            } else {
                EventStep::AwaitEvent
            }
        },
        HeaderFetch::Missing => EventStep::FailAndEnd(Error::TxSyncFailed),
        HeaderFetch::Failed => EventStep::FailAndEnd(Error::TxSyncFailed),
    }
}

/// A block of the chain with its fee rate, in satoshis per 1000 weight units.
pub type BlockFee = (BlockHash, u64);

/// The fee rates of the most recent blocks, by height.
pub struct BlockFeeCache {
    pub rates: VecMap<u32, BlockFee>,
}

/// The fee rates of a window of blocks while it is filled, from its lowest block up.
pub struct FeeWindow {
    pub entries: Vec<(u32, BlockFee)>,
}

/// What is needed for the next block of a window.
#[derive(Clone, Copy, Debug)]
pub enum WindowStep {
    /// Nothing: the block is skipped, or its rate is known.
    Done,
    /// The fee rate of a block.
    FetchRate(BlockHash),
}

/// The lowest height of the window that ends at a tip.
pub fn window_start(tip_height: u32) -> (lo: u32)
    ensures
        lo == (if tip_height < FEE_WINDOW_BLOCKS {
            0
        } else {
            tip_height - (FEE_WINDOW_BLOCKS - 1)
        }),
{
    if tip_height < FEE_WINDOW_BLOCKS - 1 {
        0
    } else {
        tip_height - (FEE_WINDOW_BLOCKS - 1)
    }
}

impl BlockFeeCache {
    pub fn new() -> (cache: Self)
        ensures
            cache.rates@ == Map::<u32, BlockFee>::empty(),
    {
        BlockFeeCache { rates: VecMap::new() }
    }

    /// Notes the fee rate of a block that was applied.
    pub fn note(&mut self, height: u32, block_hash: BlockHash, rate: u64)
        ensures
            final(self).rates@ == old(self).rates@.insert(height, (block_hash, rate)),
    {
        self.rates.insert(height, (block_hash, rate));
    }

    /// The rate of a block, if it is known. One of a block that was replaced is of no use.
    pub open spec fn known(self, height: u32, block_hash: BlockHash) -> Option<u64> {
        if self.rates@.dom().contains(height) && self.rates@[height].0 == block_hash {
            Some(self.rates@[height].1)
        } else {
            None
        }
    }

    /// Takes in the hash of the next block of a window. Heights without a header are skipped.
    pub fn window_step(&self, window: &mut FeeWindow, height: u32, header: Option<BlockHash>) -> (
    step: WindowStep)
        ensures
            step == (match header {
                Some(block_hash) => if self.known(height, block_hash) is Some {
                    WindowStep::Done
                } else {
                    WindowStep::FetchRate(block_hash)
                },
                None => WindowStep::Done,
            }),
            final(window).entries@ == (match header {
                Some(block_hash) => match self.known(height, block_hash) {
                    Some(rate) => old(window).entries@.push((height, (block_hash, rate))),
                    None => old(window).entries@,
                },
                None => old(window).entries@,
            }),
    {
        match header {
            None => WindowStep::Done,
            Some(block_hash) => {
                if let Some(entry) = self.rates.get(&height) {
                    if entry.0 == block_hash {
                        window.entries.push((height, (block_hash, entry.1)));
                        return WindowStep::Done;
                    }
                }
                WindowStep::FetchRate(block_hash)
            },
        }
    }

    /// Replaces the cache by a window, and gives back its rates. What fell out of the window is gone.
    pub fn replace(&mut self, window: FeeWindow) -> (samples: Vec<u64>)
        ensures
            samples@ == window.entries@.map_values(|e: (u32, BlockFee)| e.1.1),
            final(self).rates@ == map_of(window.entries@),
    {
        let mut rates: VecMap<u32, BlockFee> = VecMap::new();
        let mut samples: Vec<u64> = Vec::new();
        let mut i: usize = 0;
        let ghost entries = window.entries@;
        assert(entries.subrange(0, 0) =~= Seq::empty());
        while i < window.entries.len()
            invariant
                i <= window.entries@.len(),
                entries == window.entries@,
                rates@ == map_of(entries.subrange(0, i as int)),
                samples@.len() == i,
                forall|j: int| 0 <= j < i ==> #[trigger] samples@[j] == entries[j].1.1,
            decreases window.entries@.len() - i,
        {
            let (height, fee) = window.entries[i];
            proof {
                assert(entries.subrange(0, i + 1).drop_last() =~= entries.subrange(0, i as int));
            }
            rates.insert(height, fee);
            samples.push(fee.1);
            i += 1;
        }
        assert(entries.subrange(0, i as int) =~= entries);
        assert(samples@ =~= entries.map_values(|e: (u32, BlockFee)| e.1.1));
        self.rates = rates;
        samples
    }
}

/// The entries of a list, by height.
pub open spec fn map_of(entries: Seq<(u32, BlockFee)>) -> Map<u32, BlockFee>
    decreases entries.len(),
{
    if entries.len() == 0 {
        Map::empty()
    } else {
        map_of(entries.drop_last()).insert(entries.last().0, entries.last().1)
    }
}

impl FeeWindow {
    pub fn new() -> (window: Self)
        ensures
            window.entries@ == Seq::<(u32, BlockFee)>::empty(),
    {
        FeeWindow { entries: Vec::new() }
    }

    /// Takes in the fee rate of a block. One that could not be had is skipped.
    pub fn note(&mut self, height: u32, block_hash: BlockHash, rate: Option<u64>)
        ensures
            final(self).entries@ == (match rate {
                Some(rate) => old(self).entries@.push((height, (block_hash, rate))),
                None => old(self).entries@,
            }),
    {
        if let Some(rate) = rate {
            self.entries.push((height, (block_hash, rate)));
        }
    }
}

/// Whether a rate is the one for a target: a fallback without samples, else a percentile of them, but
/// no less than the lower bound.
pub open spec fn is_native_rate<F, P>(
    rate: u64,
    target: ConfirmationTarget,
    samples: Vec<u64>,
    fallback: F,
    percentile: P,
) -> bool where F: Fn(ConfirmationTarget) -> u64, P: Fn(&Vec<u64>, ConfirmationTarget) -> u64 {
    if samples@.len() == 0 {
        call_ensures(fallback, (target,), rate)
    } else {
        exists|p: u64|
            call_ensures(percentile, (&samples, target), p) && rate == if p
                < CBF_MIN_FEERATE_SAT_PER_KWU {
                CBF_MIN_FEERATE_SAT_PER_KWU
            } else {
                p
            }
    }
}

/// The new fee rates, from the rates of recent blocks. The percentile is taken of the rates in ascending
/// order. Without a node that runs there are none.
pub fn native_fee_rate_cache<F, P, A>(
    status: CbfRuntimeStatus,
    samples: &Vec<u64>,
    targets: &Vec<ConfirmationTarget>,
    fallback: &F,
    percentile: &P,
    adjust: &A,
) -> (cache: Result<FeeRateCache, Error>) where
    F: Fn(ConfirmationTarget) -> u64,
    P: Fn(&Vec<u64>, ConfirmationTarget) -> u64,
    A: Fn(ConfirmationTarget, u64) -> u64,

    requires
        targets@.no_duplicates(),
        forall|target: ConfirmationTarget| #[trigger] call_requires(fallback, (target,)),
        forall|samples: &Vec<u64>, target: ConfirmationTarget|
            samples@.len() > 0 && crate::sort::ascends(samples@) ==> #[trigger] call_requires(
                percentile,
                (samples, target),
            ),
        forall|target: ConfirmationTarget, rate: u64| #[trigger]
            call_requires(adjust, (target, rate)),
    ensures
        match status {
            CbfRuntimeStatus::Stopped => cache == Err::<FeeRateCache, Error>(
                Error::FeerateEstimationUpdateFailed,
            ),
            CbfRuntimeStatus::Started => cache matches Ok(cache) && exists|
                ascending: Vec<u64>,
                rates: Seq<u64>,
            |
                #![trigger crate::sort::ascends(ascending@), rates.len()]
                {
                    &&& crate::sort::ascends(ascending@)
                    &&& ascending@.to_multiset() == samples@.to_multiset()
                    &&& rates.len() == targets@.len()
                    &&& forall|i: int|
                        0 <= i < targets@.len() ==> is_native_rate(
                            rates[i],
                            #[trigger] targets@[i],
                            ascending,
                            *fallback,
                            *percentile,
                        )
                    &&& crate::chain::fees::holds_rates(cache@, targets@, rates, *adjust)
                },
        },
{
    match status {
        CbfRuntimeStatus::Stopped => Err(Error::FeerateEstimationUpdateFailed),
        CbfRuntimeStatus::Started => {
            let ascending = sorted(samples);
            let mut rates: Vec<u64> = Vec::new();
            let mut i: usize = 0;
            while i < targets.len()
                invariant
                    i <= targets@.len(),
                    rates@.len() == i,
                    crate::sort::ascends(ascending@),
                    forall|target: ConfirmationTarget| #[trigger]
                        call_requires(fallback, (target,)),
                    forall|samples: &Vec<u64>, target: ConfirmationTarget|
                        samples@.len() > 0 && crate::sort::ascends(samples@)
                            ==> #[trigger] call_requires(percentile, (samples, target)),
                    forall|j: int|
                        0 <= j < i ==> is_native_rate(
                            rates@[j],
                            #[trigger] targets@[j],
                            ascending,
                            *fallback,
                            *percentile,
                        ),
                decreases targets@.len() - i,
            {
                let target = targets[i];
                let rate: u64 = if ascending.len() == 0 {
                    fallback(target)
                } else {
                    let p: u64 = percentile(&ascending, target);
                    assert(call_ensures(*percentile, (&ascending, target), p));
                    if p < CBF_MIN_FEERATE_SAT_PER_KWU {
                        CBF_MIN_FEERATE_SAT_PER_KWU
                    } else {
                        p
                    }
                };
                assert(is_native_rate(rate, target, ascending, *fallback, *percentile));
                rates.push(rate);
                i += 1;
            }
            let cache = fee_rate_cache(targets, &rates, adjust);
            assert(crate::sort::ascends(ascending@));
            assert(rates@.len() == targets@.len());
            Ok(cache)
        },
    }
}

/// The new fee rates from an Electrum server that is connected to for the purpose. Where the connection
/// fails nothing is asked.
pub fn electrum_fee_rate_cache<A: Fn(ConfirmationTarget, u64) -> u64>(
    network: Network,
    connected: TaskEnd<()>,
    targets: &Vec<ConfirmationTarget>,
    estimates: TaskEnd<Vec<u64>>,
    adjust: &A,
) -> (cache: Result<FeeRateCache, Error>)
    requires
        targets@.no_duplicates(),
        forall|target: ConfirmationTarget, rate: u64| #[trigger]
            call_requires(adjust, (target, rate)),
    ensures
        match connected {
            TaskEnd::Finished(_) => match crate::chain::electrum::fee_update_error(
                network,
                targets@.len() as int,
                estimates,
            ) {
                Some(e) => cache == Err::<FeeRateCache, Error>(e),
                None => cache matches Ok(cache) && crate::chain::fees::holds_rates(
                    cache@,
                    targets@,
                    estimates->Finished_0@,
                    *adjust,
                ),
            },
            TaskEnd::Failed => cache == Err::<FeeRateCache, Error>(Error::ConnectionFailed),
            _ => cache == Err::<FeeRateCache, Error>(Error::FeerateEstimationUpdateFailed),
        },
{
    match connected {
        TaskEnd::Finished(_) => get_fee_rate_cache_update(network, targets, estimates, adjust),
        TaskEnd::Failed => Err(Error::ConnectionFailed),
        TaskEnd::NotJoined => Err(Error::FeerateEstimationUpdateFailed),
        TaskEnd::TimedOut => Err(Error::FeerateEstimationUpdateFailed),
    }
}

/// Where fee rates are taken from.
#[derive(Debug)]
pub enum CbfFeeSourceConfig {
    Esplora(String),
    Electrum(String),
}

/// How transactions that belong together are broadcast.
#[derive(Clone, Copy, Debug, PartialEq, Eq, Structural)]
pub enum PackageSubmission {
    /// Not at all: the node does not run.
    Nothing,
    /// As a package.
    Together,
    /// One by one.
    OneByOne,
}

/// The bytes of transactions.
pub open spec fn bytes_of(package: Seq<Transaction>) -> Seq<Seq<u8>> {
    package.map_values(|tx: Transaction| tx.spec_bytes())
}

/// Whether transactions, each in the bytes it travels in, make a package, as `bip157::Package::from_vec`
/// says.
pub uninterp spec fn is_package(package: Seq<Seq<u8>>) -> bool;

/// Whether transactions make a package.
///
/// Calls `bip157::Package::from_vec`, which depends on the transactions alone. One transaction makes a
/// package. Two do if the second spends an output of the first. No other number of them does.
#[verifier::external_body]
fn check_package(package: &Vec<Transaction>) -> (makes_package: bool)
    ensures
        makes_package == is_package(bytes_of(package@)),
        package@.len() == 1 && crate::transaction::txid_of(package@[0].spec_bytes()) is Some
            ==> makes_package,
        makes_package ==> 1 <= package@.len() <= 2,
{
    let read: Result<Vec<bitcoin::Transaction>, bitcoin::consensus::encode::Error> =
        package.iter().map(|tx| bitcoin::consensus::deserialize(tx.as_bytes())).collect();
    match read {
        Ok(transactions) => bip157::Package::from_vec(transactions).is_ok(),
        Err(_) => false,
    }
}

/// How transactions that belong together are broadcast, given whether they make a package.
pub fn submission_of(status: CbfRuntimeStatus, makes_package: bool) -> (submission:
    PackageSubmission)
    ensures
        submission == (match status {
            CbfRuntimeStatus::Stopped => PackageSubmission::Nothing,
            CbfRuntimeStatus::Started => if makes_package {
                PackageSubmission::Together
            } else {
                PackageSubmission::OneByOne
            },
        }),
{
    match status {
        CbfRuntimeStatus::Stopped => PackageSubmission::Nothing,
        CbfRuntimeStatus::Started => {
            if makes_package {
                PackageSubmission::Together
            } else {
                PackageSubmission::OneByOne
            }
        },
    }
}

/// How transactions that belong together are broadcast: one by one where they make no package.
pub fn process_broadcast_package(status: CbfRuntimeStatus, package: &Vec<Transaction>) -> (
submission: PackageSubmission)
    ensures
        submission == (match status {
            CbfRuntimeStatus::Stopped => PackageSubmission::Nothing,
            CbfRuntimeStatus::Started => if is_package(bytes_of(package@)) {
                PackageSubmission::Together
            } else {
                PackageSubmission::OneByOne
            },
        }),
        submission == PackageSubmission::Together ==> 1 <= package@.len() <= 2,
        status == CbfRuntimeStatus::Started && package@.len() == 1 ==> submission
            == PackageSubmission::Together,
{
    if package.len() == 1 {
        // Its bytes hold a transaction.
        let _ = package[0].compute_txid();
    }
    submission_of(status, check_package(package))
}

/// The position at which a walk down a chain of checkpoints stops: the first one that is no higher than
/// a height, or else the last one.
pub open spec fn walk_to(checkpoints: Seq<BestBlock>, height: u32, from: int) -> int
    decreases checkpoints.len() - from,
{
    if from >= checkpoints.len() - 1 || checkpoints[from].height <= height {
        from
    } else {
        walk_to(checkpoints, height, from + 1)
    }
}

/// The checkpoint that the node resumes from, among those of the wallet, of which the highest comes
/// first: one that lies far enough below the lowest best block of the listeners. The genesis block is
/// none.
pub fn resume_checkpoint(min_best_block: BestBlock, checkpoints: &Vec<BestBlock>) -> (checkpoint:
    Option<BestBlock>)
    requires
        checkpoints@.len() > 0,
    ensures
        ({
            let target = if min_best_block.height < REORG_SAFETY_BLOCKS {
                0u32
            } else {
                (min_best_block.height - REORG_SAFETY_BLOCKS) as u32
            };
            let stop = checkpoints@[walk_to(checkpoints@, target, 0)];
            checkpoint == if stop.height > 0 {
                Some(stop)
            } else {
                None
            }
        }),
{
    let target_height: u32 = if min_best_block.height < REORG_SAFETY_BLOCKS {
        0
    } else {
        min_best_block.height - REORG_SAFETY_BLOCKS
    };
    let mut i: usize = 0;
    while i < checkpoints.len() - 1 && checkpoints[i].height > target_height
        invariant
            i < checkpoints@.len(),
            walk_to(checkpoints@, target_height, 0) == walk_to(
                checkpoints@,
                target_height,
                i as int,
            ),
        decreases checkpoints@.len() - i,
    {
        i += 1;
    }
    let stop = checkpoints[i];
    if stop.height > 0 {
        Some(stop)
    } else {
        None
    }
}

/// A block is connected exactly if it is the next one, whether it is fetched or its filter rules it out, and
/// moves the applicator by one block. Every other block is passed over and changes nothing.
pub proof fn law_blocks_are_connected_in_order(
    applicator: BlockApplicator,
    height: u32,
    block_hash: BlockHash,
)
    requires
        applicator.next_height < u32::MAX,
    ensures
        ({
            let full = ChainOp::ConnectFull { height, block_hash };
            let filtered = ChainOp::ConnectFiltered { height };
            if height == applicator.next_height {
                &&& applicator.action_for(full) == (ApplyAction::ConnectFull {
                    note_fee_rate: applicator.native_fees,
                })
                &&& applicator.action_for(filtered) == ApplyAction::ConnectFiltered
                &&& applicator.after(full) == applicator.after(filtered)
                &&& applicator.after(full).next_height == applicator.next_height + 1
                &&& applicator.after(full).native_fees == applicator.native_fees
                &&& published_tip(applicator.after(full).sync_state) == published_tip(
                    applicator.sync_state,
                )
                &&& applicator.after(full).sync_state is Failed
                    <==> applicator.sync_state is Failed
            } else {
                &&& applicator.action_for(full) == ApplyAction::SkipBlock
                &&& applicator.action_for(filtered) == ApplyAction::SkipBlock
                &&& applicator.after(full) == applicator
                &&& applicator.after(filtered) == applicator
            }
        }),
{
}

/// A reorganization takes the applicator back to the fork, from which blocks are connected again.
pub proof fn law_a_reorganization_goes_back_to_the_fork(
    applicator: BlockApplicator,
    fork_point: BestBlock,
    parent: BlockHash,
    height: u32,
)
    requires
        fork_point.height < u32::MAX,
    ensures
        ({
            let op = ChainOp::Disconnect { fork_point };
            &&& applicator.action_for(op) == ApplyAction::Disconnect
            &&& applicator.after(op).next_height == fork_point.height + 1
            &&& applicator.after(op).sync_state == (CbfSyncState::Active {
                applied_tip: Some(fork_point.height),
                synced_to_tip: false,
            })
            &&& applicator.after(op).native_fees == applicator.native_fees
        }),
        fork_point_of(parent, height).block_hash == parent,
        height > 0 ==> fork_point_of(parent, height).height == height - 1,
        height == 0 ==> fork_point_of(parent, height).height == 0,
{
}

/// A tip is published exactly if its block is applied. The published tip never goes back by that, and the
/// metrics are written exactly if it goes up.
pub proof fn law_a_tip_is_published_when_its_block_is_applied(
    applicator: BlockApplicator,
    tip_height: u32,
)
    ensures
        ({
            let op = ChainOp::Synced { tip_height };
            let after = applicator.after(op);
            let before = published_tip(applicator.sync_state);
            if tip_height < applicator.next_height {
                &&& applicator.action_for(op) is PublishTip
                &&& applicator.action_for(op)->write_metrics <==> (before is None || before->0
                    < tip_height)
                &&& after.sync_state is Active
                &&& after.sync_state->synced_to_tip
                &&& after.sync_state->applied_tip is Some
                &&& after.sync_state->applied_tip->0 >= tip_height
                &&& before is None ==> after.sync_state->applied_tip->0 == tip_height
                &&& before is Some ==> after.sync_state->applied_tip->0 >= before->0
                &&& before is Some ==> (after.sync_state->applied_tip->0 == before->0
                    || after.sync_state->applied_tip->0 == tip_height)
                &&& after.next_height == applicator.next_height
                &&& after.native_fees == applicator.native_fees
            } else {
                applicator.action_for(op) == ApplyAction::AwaitBlocks && after == applicator
            }
        }),
{
}

/// A failure is published as it is, and moves no block.
pub proof fn law_failures_are_published(applicator: BlockApplicator, error: Error)
    ensures
        applicator.action_for(ChainOp::Failed { error }) == ApplyAction::PublishFailure,
        applicator.after(ChainOp::Failed { error }).sync_state == CbfSyncState::Failed(error),
        applicator.after(ChainOp::Failed { error }).next_height == applicator.next_height,
        applicator.after(ChainOp::Failed { error }).native_fees == applicator.native_fees,
{
}

/// What a state tells: the tip that was applied, unless the node failed; whether the node is done syncing;
/// and nothing to wait for once it failed. New blocks leave the tip and put an end to being synced.
pub proof fn law_states_tell_how_far_the_node_is(
    applied_tip: Option<u32>,
    synced_to_tip: bool,
    error: Error,
    tip_height: u32,
)
    ensures
        ({
            let active = CbfSyncState::Active { applied_tip, synced_to_tip };
            let failed = CbfSyncState::Failed(error);
            &&& published_tip(active) == applied_tip
            &&& published_tip(failed) is None
            &&& is_published(active, tip_height) <==> applied_tip is Some && applied_tip->0
                >= tip_height
            &&& !is_published(failed, tip_height)
            &&& synced_result(active) is Some <==> synced_to_tip
            &&& synced_to_tip ==> synced_result(active) == Some(Ok::<(), Error>(()))
            &&& synced_result(failed) == Some(Err::<(), Error>(error))
            &&& behind_tip(active) == (CbfSyncState::Active { applied_tip, synced_to_tip: false })
            &&& behind_tip(failed) == failed
            &&& synced_result(behind_tip(active)) is None
        }),
{
}

/// The pauses before restarts double, as far as they can be counted.
pub proof fn law_pauses_before_restarts_double(ms: u64)
    ensures
        doubled_ms(ms) == 2 * ms || (doubled_ms(ms) == u64::MAX && 2 * ms > u64::MAX),
{
}

/// The rate of a block is known exactly if it was noted for that height and that very block: a block that
/// took its place in a reorganization has a rate of its own.
pub proof fn law_rates_are_known_by_height_and_block(
    cache: BlockFeeCache,
    height: u32,
    block_hash: BlockHash,
    rate: u64,
)
    ensures
        cache.known(height, block_hash) == Some(rate) <==> cache.rates@.dom().contains(height)
            && cache.rates@[height] == (block_hash, rate),
        !cache.rates@.dom().contains(height) ==> cache.known(height, block_hash) is None,
{
}

/// A window holds what was noted for each height last, and nothing else.
pub proof fn law_a_window_holds_what_was_noted_last(entries: Seq<(u32, BlockFee)>, i: int, height: u32)
    ensures
        0 <= i < entries.len() ==> map_of(entries).dom().contains(entries[i].0),
        0 <= i < entries.len() && (forall|j: int|
            i < j < entries.len() ==> (#[trigger] entries[j]).0 != entries[i].0) ==> map_of(
            entries,
        )[entries[i].0] == entries[i].1,
        map_of(entries).dom().contains(height) ==> exists|j: int|
            0 <= j < entries.len() && (#[trigger] entries[j]).0 == height,
    decreases entries.len(),
{
    if entries.len() > 0 {
        let front = entries.drop_last();
        let last = entries.len() - 1;
        law_a_window_holds_what_was_noted_last(front, i, height);
        if 0 <= i < last {
            assert(front[i] == entries[i]);
            if forall|j: int| i < j < entries.len() ==> (#[trigger] entries[j]).0 != entries[i].0 {
                assert forall|j: int| i < j < front.len() implies (#[trigger] front[j]).0
                    != front[i].0 by {
                    assert(front[j] == entries[j]);
                }
                assert(entries[last].0 != entries[i].0);
            }
        }
        if map_of(front).dom().contains(height) {
            let j = choose|j: int| 0 <= j < front.len() && (#[trigger] front[j]).0 == height;
            assert(entries[j] == front[j]);
        }
        assert(entries[last] == entries.last());
    }
}

/// Without samples a rate is the fallback. With samples it is their percentile, and the minimum where that
/// is below it.
pub proof fn law_native_rates_have_a_minimum<F, P>(
    rate: u64,
    target: ConfirmationTarget,
    samples: Vec<u64>,
    fallback: F,
    percentile: P,
) where F: Fn(ConfirmationTarget) -> u64, P: Fn(&Vec<u64>, ConfirmationTarget) -> u64
    requires
        is_native_rate(rate, target, samples, fallback, percentile),
    ensures
        samples@.len() == 0 ==> call_ensures(fallback, (target,), rate),
        samples@.len() > 0 ==> rate >= 250 && exists|p: u64|
            call_ensures(percentile, (&samples, target), p) && rate >= p && (rate == p || rate
                == 250),
{
}

/// The bytes of a package are those of its transactions, in order.
pub proof fn law_package_bytes(package: Seq<Transaction>, i: int)
    ensures
        bytes_of(package).len() == package.len(),
        0 <= i < package.len() ==> bytes_of(package)[i] == package[i].spec_bytes(),
{
}

/// A walk down the checkpoints ends at the first one that is not above the height, and at the last one where
/// all are above it.
pub proof fn law_walks_end_at_the_first_checkpoint_below(
    checkpoints: Seq<BestBlock>,
    height: u32,
    from: int,
    i: int,
)
    requires
        0 <= from < checkpoints.len(),
    ensures
        from <= walk_to(checkpoints, height, from) < checkpoints.len(),
        checkpoints[walk_to(checkpoints, height, from)].height <= height || walk_to(
            checkpoints,
            height,
            from,
        ) == checkpoints.len() - 1,
        from <= i < walk_to(checkpoints, height, from) ==> checkpoints[i].height > height,
    decreases checkpoints.len() - from,
{
    if !(from >= checkpoints.len() - 1 || checkpoints[from].height <= height) {
        law_walks_end_at_the_first_checkpoint_below(checkpoints, height, from + 1, i);
    }
}

/// A block whose filter matches is fetched, up to three times, and one whose filter does not match is
/// connected by its header, if that is the header of this very block.
pub proof fn law_blocks_are_fetched_up_to_three_times(
    block_hash: BlockHash,
    height: u32,
    attempt: u8,
    matched: bool,
    first: EventStep,
    again: EventStep,
    fetched_height: u32,
    fetched: EventStep,
    found: BlockHash,
    by_header: EventStep,
)
    requires
        1 <= attempt <= 3,
        call_ensures(after_match, (block_hash, height, matched), first),
        call_ensures(after_block_fetch, (block_hash, height, attempt, BlockFetch::Failed), again),
        call_ensures(
            after_block_fetch,
            (block_hash, height, attempt, BlockFetch::Fetched { height: fetched_height }),
            fetched,
        ),
        call_ensures(
            after_header_fetch,
            (block_hash, HeaderFetch::Found { block_hash: found, height: fetched_height }),
            by_header,
        ),
    ensures
        matched ==> first == (EventStep::FetchBlock { block_hash, height, attempt: 1 }),
        !matched ==> first == (EventStep::FetchHeader { block_hash, height }),
        attempt < 3 ==> again == (EventStep::FetchBlock {
            block_hash,
            height,
            attempt: (attempt + 1) as u8,
        }),
        attempt == 3 ==> again == EventStep::FailAndEnd(Error::TxSyncFailed),
        fetched == EventStep::Apply(
            ChainOp::ConnectFull { height: fetched_height, block_hash },
        ),
        found == block_hash ==> by_header == EventStep::Apply(
            ChainOp::ConnectFiltered { height: fetched_height },
        ),
        found != block_hash ==> by_header == EventStep::AwaitEvent,
{
}

/// The window of fee rates holds the last 14 blocks up to the tip, or as many as there are.
pub proof fn law_the_window_holds_fourteen_blocks(tip_height: u32, lo: u32)
    requires
        call_ensures(window_start, (tip_height,), lo),
    ensures
        tip_height >= 13 ==> tip_height - lo + 1 == 14,
        tip_height < 14 ==> lo == 0,
{
}

/// A node resumes at least seven blocks below the lowest block that is known, where there is a checkpoint so
/// far below, at the highest such checkpoint; and never at the very first block.
pub proof fn law_nodes_resume_below_what_a_reorganization_may_undo(
    best: BestBlock,
    checkpoints: Vec<BestBlock>,
    checkpoint: Option<BestBlock>,
    i: int,
)
    requires
        checkpoints@.len() > 0,
        0 <= i < checkpoints@.len(),
        forall|j: int, k: int|
            #![trigger checkpoints@[j], checkpoints@[k]]
            0 <= j < k < checkpoints@.len() ==> checkpoints@[j].height > checkpoints@[k].height,
        call_ensures(resume_checkpoint, (best, &checkpoints), checkpoint),
    ensures
        checkpoint matches Some(cp) ==> cp.height > 0 && checkpoints@.contains(cp),
        checkpoint matches Some(cp) ==> (cp.height + 7 <= best.height || cp
            == checkpoints@.last()),
        checkpoints@[i].height + 7 <= best.height && checkpoints@[i].height > 0 ==> checkpoint
            is Some && checkpoint->0.height >= checkpoints@[i].height,
{
    let target: u32 = if best.height < 7 {
        0
    } else {
        (best.height - 7) as u32
    };
    let stop = walk_to(checkpoints@, target, 0);
    law_walks_end_at_the_first_checkpoint_below(checkpoints@, target, 0, i);
    assert(checkpoints@[stop] == checkpoints@[stop]);
    if i < stop {
        assert(checkpoints@[i].height > target);
    } else if i > stop {
        assert(checkpoints@[stop].height > checkpoints@[i].height);
    }
}

/// Waiting for a sync ends at once where the node does not run, and otherwise with what the state tells. A
/// package is submitted as a whole where it makes one, and not at all where the node does not run.
pub proof fn law_a_stopped_node_does_nothing(
    state: CbfSyncState,
    stopped: Option<Result<(), Error>>,
    started: Option<Result<(), Error>>,
    makes_package: bool,
    status: CbfRuntimeStatus,
    submission: PackageSubmission,
)
    requires
        call_ensures(wait_until_synced, (CbfRuntimeStatus::Stopped, state), stopped),
        call_ensures(wait_until_synced, (CbfRuntimeStatus::Started, state), started),
        call_ensures(submission_of, (status, makes_package), submission),
    ensures
        stopped == Some(Err::<(), Error>(Error::NotRunning)),
        started == synced_result(state),
        submission is Nothing <==> status is Stopped,
        submission is Together <==> status is Started && makes_package,
        submission is OneByOne <==> status is Started && !makes_package,
{
}

/// A run that ended well ends the node. One that failed is restarted after a pause, five times at most, with
/// the pause doubling each time; after that the node has failed.
pub proof fn law_failed_runs_are_restarted_five_times(
    restarts: &mut RestartState,
    failed: bool,
    status: &mut CbfRuntimeStatus,
    state: &mut CbfSyncState,
    action: RestartAction,
    begun: RestartState,
)
    requires
        old(restarts).retries <= 5,
        call_ensures(RestartState::new, (), begun),
        call_ensures(RestartState::after_run, (restarts, failed, status, state), action),
    ensures
        begun.retries == 0,
        begun.backoff_ms == 500,
        action is RestartAfter <==> failed && old(restarts).retries < 5,
        action matches RestartAction::RestartAfter { pause_ms } ==> pause_ms == old(
            restarts
        ).backoff_ms && final(restarts).retries == old(restarts).retries + 1 && final(
            restarts
        ).backoff_ms == doubled_ms(old(restarts).backoff_ms) && *final(status) == *old(status)
            && *final(state) == *old(state),
        action is End ==> *final(status) == CbfRuntimeStatus::Stopped,
        !failed ==> *final(state) == CbfSyncState::Failed(Error::NotRunning),
        failed && action is End ==> *final(state) == CbfSyncState::Failed(Error::TxSyncFailed),
{
}

/// A node that is stopped is started at the block behind its best one, and one that runs is left alone. A stop
/// is told to those who wait.
pub proof fn law_nodes_are_started_once(
    status: &mut CbfRuntimeStatus,
    best: u32,
    native_fees: bool,
    applicator: Option<BlockApplicator>,
    stopped: &mut CbfRuntimeStatus,
    state: &mut CbfSyncState,
    shut_down: bool,
)
    requires
        best < u32::MAX,
        call_ensures(start, (status, best, native_fees), applicator),
        call_ensures(stop, (stopped, state), shut_down),
    ensures
        *final(status) == CbfRuntimeStatus::Started,
        applicator is Some <==> *old(status) == CbfRuntimeStatus::Stopped,
        applicator matches Some(a) ==> a.next_height == best + 1 && a.native_fees == native_fees
            && published_tip(a.sync_state) == Some(best) && synced_result(a.sync_state) is None,
        *final(stopped) == CbfRuntimeStatus::Stopped,
        *final(state) == CbfSyncState::Failed(Error::NotRunning),
        shut_down <==> *old(stopped) == CbfRuntimeStatus::Started,
{
}

/// What an event is for: a filter is matched while the node runs, and puts an end to being synced; the end of
/// the filters is applied with its tip; a reorganization is applied with its fork; and nothing else is.
pub proof fn law_what_events_are_for(
    block_hash: BlockHash,
    height: u32,
    filtered: &mut CbfSyncState,
    by_filter: EventStep,
    synced: &mut CbfSyncState,
    by_end: EventStep,
    forked: &mut CbfSyncState,
    by_reorganization: EventStep,
    other: &mut CbfSyncState,
    by_header: EventStep,
)
    requires
        call_ensures(
            on_event,
            (
                CbfEvent::IndexedFilter { block_hash, height },
                CbfRuntimeStatus::Started,
                filtered,
            ),
            by_filter,
        ),
        call_ensures(
            on_event,
            (CbfEvent::FiltersSynced { tip_height: height }, CbfRuntimeStatus::Started, synced),
            by_end,
        ),
        call_ensures(
            on_event,
            (
                CbfEvent::Reorganized { lowest: Some((block_hash, height)) },
                CbfRuntimeStatus::Started,
                forked,
            ),
            by_reorganization,
        ),
        call_ensures(
            on_event,
            (CbfEvent::HeaderConnected, CbfRuntimeStatus::Started, other),
            by_header,
        ),
    ensures
        by_filter == (EventStep::MatchFilter { block_hash, height }),
        *final(filtered) == behind_tip(*old(filtered)),
        by_end == EventStep::Apply(ChainOp::Synced { tip_height: height }),
        *final(synced) == *old(synced),
        by_reorganization == EventStep::Apply(
            ChainOp::Disconnect { fork_point: fork_point_of(block_hash, height) },
        ),
        *final(forked) == *old(forked),
        by_header == EventStep::AwaitEvent,
        *final(other) == *old(other),
{
}

/// Every operation on the chain is carried out as it is planned.
pub proof fn law_operations_are_carried_out(
    applicator: &mut BlockApplicator,
    height: u32,
    block_hash: BlockHash,
    connected: ApplyAction,
    published: &mut BlockApplicator,
    tip_height: u32,
    is_new: bool,
)
    requires
        old(applicator).next_height < u32::MAX,
        call_ensures(
            BlockApplicator::apply,
            (applicator, ChainOp::ConnectFull { height, block_hash }),
            connected,
        ),
        call_ensures(BlockApplicator::publish_synced_tip, (published, tip_height), is_new),
    ensures
        connected is ConnectFull <==> height == old(applicator).next_height,
        connected is ConnectFull ==> final(applicator).next_height == old(applicator).next_height
            + 1,
        !(connected is ConnectFull) ==> *final(applicator) == *old(applicator),
        synced_result(final(published).sync_state) == Some(Ok::<(), Error>(())),
        is_new ==> published_tip(final(published).sync_state) == Some(tip_height),
        !is_new ==> published_tip(final(published).sync_state) == published_tip(
            old(published).sync_state,
        ),
        is_new <==> !is_published(old(published).sync_state, tip_height),
        final(published).next_height == old(published).next_height,
{
    law_blocks_are_connected_in_order(*old(applicator), height, block_hash);
}

/// What it means that the published tip is applied: a tip that is published is below the next block, so that
/// no block of it is still to come.
pub proof fn law_a_published_tip_lies_below_the_next_block(applicator: BlockApplicator)
    ensures
        applicator.tip_is_applied() <==> published_tip(applicator.sync_state) is None
            || published_tip(applicator.sync_state)->0 + 1 <= applicator.next_height,
{
}

} // verus!
