//! Syncing with a Bitcoin Core node.
use crate::chain::fees::{
    fee_rate_cache, ConfirmationTarget, FeeRateCache, LdkConfirmationTarget,
};
use crate::chain::json::{ClientKind, Endpoint, FeeRateEstimationMode};
use crate::chain::mempool::MempoolCache;
use crate::error::Error;
use crate::metrics::NodeMetrics;
use crate::transaction::Transaction;
use crate::types::{BestBlock, BlockHash, Network};
use vstd::prelude::*;

verus! {

pub const CHAIN_POLLING_INTERVAL_SECS: u64 = 2;

pub const CHAIN_POLLING_TIMEOUT_SECS: u64 = 10;

pub const MAX_BACKOFF_SECS: u64 = 300;

/// Who follows the chain.
#[derive(Clone, Copy, Debug, PartialEq, Eq, Structural)]
pub enum Listener {
    OnchainWallet,
    ChannelManager,
    OutputSweeper,
    ChainMonitor,
}

/// Whether a block is the lowest of a list, and the first of those.
pub open spec fn is_lowest(blocks: Seq<BestBlock>, i: int) -> bool {
    &&& 0 <= i < blocks.len()
    &&& forall|j: int|
        0 <= j < blocks.len() ==> blocks[i].height <= (#[trigger] blocks[j]).height
    &&& forall|j: int| 0 <= j < i ==> blocks[i].height < (#[trigger] blocks[j]).height
}

/// The lowest block of a list, and the first of those.
fn lowest(blocks: &Vec<BestBlock>) -> (position: Option<usize>)
    ensures
        match position {
            Some(i) => is_lowest(blocks@, i as int),
            None => blocks@.len() == 0,
        },
{
    if blocks.len() == 0 {
        return None;
    }
    let mut best: usize = 0;
    let mut i: usize = 1;
    while i < blocks.len()
        invariant
            best < i <= blocks@.len(),
            forall|j: int|
                0 <= j < i ==> blocks@[best as int].height <= (#[trigger] blocks@[j]).height,
            forall|j: int|
                0 <= j < best ==> blocks@[best as int].height < (#[trigger] blocks@[j]).height,
        decreases blocks@.len() - i,
    {
        if blocks[i].height < blocks[best].height {
            best = i;
        }
        i += 1;
    }
    Some(best)
}

/// Who is synced first, each from the block it knows. All channel monitors together are synced from the
/// lowest block that any of them knows.
pub fn chain_listeners(
    onchain_wallet: BlockHash,
    channel_manager: BlockHash,
    output_sweeper: BlockHash,
    monitors: &Vec<BestBlock>,
) -> (listeners: Vec<(BlockHash, Listener)>)
    ensures
        ({
            let first = seq![
                (onchain_wallet, Listener::OnchainWallet),
                (channel_manager, Listener::ChannelManager),
                (output_sweeper, Listener::OutputSweeper),
            ];
            if monitors@.len() == 0 {
                listeners@ == first
            } else {
                exists|i: int| #[trigger]
                    is_lowest(monitors@, i) && listeners@ == first.push(
                        (monitors@[i].block_hash, Listener::ChainMonitor),
                    )
            }
        }),
{
    let mut listeners: Vec<(BlockHash, Listener)> = Vec::new();
    listeners.push((onchain_wallet, Listener::OnchainWallet));
    listeners.push((channel_manager, Listener::ChannelManager));
    listeners.push((output_sweeper, Listener::OutputSweeper));
    let ghost first = seq![
        (onchain_wallet, Listener::OnchainWallet),
        (channel_manager, Listener::ChannelManager),
        (output_sweeper, Listener::OutputSweeper),
    ];
    assert(listeners@ =~= first);
    if let Some(i) = lowest(monitors) {
        listeners.push((monitors[i].block_hash, Listener::ChainMonitor));
        assert(is_lowest(monitors@, i as int));
        assert(listeners@ =~= first.push(
            (monitors@[i as int].block_hash, Listener::ChainMonitor),
        ));
    }
    listeners
}

/// How an attempt to sync the listeners ended.
#[derive(Clone, Copy, Debug, PartialEq, Eq, Structural)]
pub enum SyncAttempt {
    Synced,
    /// It may succeed when tried again.
    TransientError,
    /// It will hardly succeed when tried again.
    PersistentError,
}

/// Twice a pause, up to the longest one.
pub open spec fn doubled(backoff_secs: u64) -> u64 {
    if 2 * backoff_secs <= MAX_BACKOFF_SECS {
        (2 * backoff_secs) as u64
    } else {
        MAX_BACKOFF_SECS
    }
}

/// How far the loop that keeps the wallets synced is.
#[derive(Clone, Copy, Debug)]
pub enum SyncLoop {
    /// The listeners are synced for the first time. The pause after the next transient error is this
    /// long.
    Initial { backoff_secs: u64 },
    /// The chain is polled. The tip is that of the time when the fee rates were last updated.
    Polling { last_best_block_hash: Option<BlockHash> },
    Stopped,
}

/// What happens to the loop.
#[derive(Clone, Copy, Debug)]
pub enum SyncLoopEvent {
    Stop,
    /// An attempt to sync the listeners ended.
    Attempted(SyncAttempt),
    /// A pause is over.
    Paused,
    PollTick,
    /// The channel manager knows this tip.
    FeeRateTick { best_block_hash: BlockHash },
    /// The fee rates were updated, or not; the channel manager knows this tip now.
    FeeRatesUpdated { succeeded: bool, best_block_hash: BlockHash },
}

/// What the loop does next.
#[derive(Clone, Copy, Debug, PartialEq, Eq, Structural)]
pub enum SyncLoopAction {
    SyncListeners,
    /// Wait for a number of seconds, or until the loop is stopped.
    Pause(u64),
    /// The listeners are synced: tell those who wait for it, and begin to poll.
    StartPolling,
    PollListeners,
    UpdateFeeRates,
    Wait,
    Return,
}

/// How far the loop is after an event, and what it does next. Pauses after transient errors get twice as
/// long each time, up to the longest one, which is made after any other error. The fee rates are
/// updated once for each block.
pub open spec fn follow(state: SyncLoop, event: SyncLoopEvent) -> (SyncLoop, SyncLoopAction) {
    match state {
        SyncLoop::Stopped => (state, SyncLoopAction::Return),
        SyncLoop::Initial { backoff_secs } => match event {
            SyncLoopEvent::Stop => (SyncLoop::Stopped, SyncLoopAction::Return),
            SyncLoopEvent::Attempted(SyncAttempt::Synced) => (
                SyncLoop::Polling { last_best_block_hash: None },
                SyncLoopAction::StartPolling,
            ),
            SyncLoopEvent::Attempted(SyncAttempt::TransientError) => (
                SyncLoop::Initial { backoff_secs: doubled(backoff_secs) },
                SyncLoopAction::Pause(backoff_secs),
            ),
            SyncLoopEvent::Attempted(SyncAttempt::PersistentError) => (
                state,
                SyncLoopAction::Pause(MAX_BACKOFF_SECS),
            ),
            SyncLoopEvent::Paused => (state, SyncLoopAction::SyncListeners),
            _ => (state, SyncLoopAction::Wait),
        },
        SyncLoop::Polling { last_best_block_hash } => match event {
            SyncLoopEvent::Stop => (SyncLoop::Stopped, SyncLoopAction::Return),
            SyncLoopEvent::PollTick => (state, SyncLoopAction::PollListeners),
            SyncLoopEvent::FeeRateTick { best_block_hash } => if last_best_block_hash == Some(
                best_block_hash,
            ) {
                (state, SyncLoopAction::Wait)
            } else {
                (state, SyncLoopAction::UpdateFeeRates)
            },
            SyncLoopEvent::FeeRatesUpdated { succeeded: true, best_block_hash } => (
                SyncLoop::Polling { last_best_block_hash: Some(best_block_hash) },
                SyncLoopAction::Wait,
            ),
            _ => (state, SyncLoopAction::Wait),
        },
    }
}

impl SyncLoop {
    /// Begins with a first attempt to sync the listeners.
    pub fn new() -> (begun: (Self, SyncLoopAction))
        ensures
            begun == (
                SyncLoop::Initial { backoff_secs: CHAIN_POLLING_INTERVAL_SECS },
                SyncLoopAction::SyncListeners,
            ),
    {
        (
            SyncLoop::Initial { backoff_secs: CHAIN_POLLING_INTERVAL_SECS },
            SyncLoopAction::SyncListeners,
        )
    }

    /// Takes in an event, and says what to do next.
    pub fn step(&mut self, event: SyncLoopEvent) -> (action: SyncLoopAction)
        ensures
            (*final(self), action) == follow(*old(self), event),
    {
        let state = *self;
        match state {
            SyncLoop::Stopped => SyncLoopAction::Return,
            SyncLoop::Initial { backoff_secs } => match event {
                SyncLoopEvent::Stop => {
                    *self = SyncLoop::Stopped;
                    SyncLoopAction::Return
                },
                SyncLoopEvent::Attempted(SyncAttempt::Synced) => {
                    *self = SyncLoop::Polling { last_best_block_hash: None };
                    SyncLoopAction::StartPolling
                },
                SyncLoopEvent::Attempted(SyncAttempt::TransientError) => {
                    let next: u64 = if backoff_secs <= MAX_BACKOFF_SECS / 2 {
                        backoff_secs * 2
                    } else {
                        MAX_BACKOFF_SECS
                    };
                    *self = SyncLoop::Initial { backoff_secs: next };
                    SyncLoopAction::Pause(backoff_secs)
                },
                SyncLoopEvent::Attempted(SyncAttempt::PersistentError) => SyncLoopAction::Pause(
                    MAX_BACKOFF_SECS,
                ),
                SyncLoopEvent::Paused => SyncLoopAction::SyncListeners,
                _ => SyncLoopAction::Wait,
            },
            SyncLoop::Polling { last_best_block_hash } => match event {
                SyncLoopEvent::Stop => {
                    *self = SyncLoop::Stopped;
                    SyncLoopAction::Return
                },
                SyncLoopEvent::PollTick => SyncLoopAction::PollListeners,
                SyncLoopEvent::FeeRateTick { best_block_hash } => {
                    let known = match last_best_block_hash {
                        Some(hash) => hash == best_block_hash,
                        None => false,
                    };
                    if known {
                        SyncLoopAction::Wait
                    } else {
                        SyncLoopAction::UpdateFeeRates
                    }
                },
                SyncLoopEvent::FeeRatesUpdated { succeeded, best_block_hash } => {
                    if succeeded {
                        *self = SyncLoop::Polling { last_best_block_hash: Some(best_block_hash) };
                    }
                    SyncLoopAction::Wait
                },
                _ => SyncLoopAction::Wait,
            },
        }
    }
}

/// The pause after a number of transient errors in a row.
pub open spec fn backoff_after(errors: nat) -> u64
    decreases errors,
{
    if errors == 0 {
        CHAIN_POLLING_INTERVAL_SECS
    } else {
        doubled(backoff_after((errors - 1) as nat))
    }
}

/// Each transient error in a row is followed by its pause. Pauses never get shorter, and are never longer
/// than the longest one, which is reached after eight errors.
pub proof fn law_backoff(errors: nat)
    ensures
        follow(
            SyncLoop::Initial { backoff_secs: backoff_after(errors) },
            SyncLoopEvent::Attempted(SyncAttempt::TransientError),
        ) == (
            SyncLoop::Initial { backoff_secs: backoff_after(errors + 1) },
            SyncLoopAction::Pause(backoff_after(errors)),
        ),
        CHAIN_POLLING_INTERVAL_SECS <= backoff_after(errors) <= backoff_after(errors + 1)
            <= MAX_BACKOFF_SECS,
        errors >= 8 ==> backoff_after(errors) == MAX_BACKOFF_SECS,
    decreases errors,
{
    if errors > 0 {
        law_backoff((errors - 1) as nat);
    }
    if errors == 8 {
        assert(backoff_after(8) == MAX_BACKOFF_SECS) by {
            reveal_with_fuel(backoff_after, 10);
        }
    }
}

/// The chain is polled, and fee rates are updated, only after the listeners were synced.
pub proof fn law_polling_begins_when_the_listeners_are_synced(state: SyncLoop, event: SyncLoopEvent)
    ensures
        follow(state, event).0 is Polling ==> state is Polling || (state is Initial && event
            == SyncLoopEvent::Attempted(SyncAttempt::Synced)),
        follow(state, event).1 == SyncLoopAction::PollListeners || follow(state, event).1
            == SyncLoopAction::UpdateFeeRates ==> state is Polling,
        follow(state, event).1 == SyncLoopAction::StartPolling ==> state is Initial && follow(
            state,
            event,
        ).0 is Polling,
{
}

/// A stop ends the loop wherever it is, and nothing brings it back.
pub proof fn law_a_stop_ends_the_loop(state: SyncLoop, event: SyncLoopEvent)
    ensures
        follow(state, SyncLoopEvent::Stop) == (SyncLoop::Stopped, SyncLoopAction::Return),
        follow(follow(state, SyncLoopEvent::Stop).0, event) == (SyncLoop::Stopped, SyncLoopAction::Return),
{
}

/// Once the fee rates were updated for a block they are not updated for it again. Where that failed,
/// they are.
pub proof fn law_fee_rates_are_updated_once_for_each_block(state: SyncLoop, tip: BlockHash)
    requires
        state is Polling,
        follow(state, SyncLoopEvent::FeeRateTick { best_block_hash: tip }).1
            == SyncLoopAction::UpdateFeeRates,
    ensures
        ({
            let tick = SyncLoopEvent::FeeRateTick { best_block_hash: tip };
            let updated = SyncLoopEvent::FeeRatesUpdated { succeeded: true, best_block_hash: tip };
            let failed = SyncLoopEvent::FeeRatesUpdated { succeeded: false, best_block_hash: tip };
            &&& follow(follow(state, updated).0, tick).1 == SyncLoopAction::Wait
            &&& follow(follow(state, failed).0, tick).1 == SyncLoopAction::UpdateFeeRates
        }),
{
}

/// How a poll for the tip of the chain ended.
#[derive(Clone, Copy, Debug)]
pub enum TipPoll<T> {
    TimedOut,
    Failed,
    Tip(T),
}

/// The tip of the chain that a poll gives. It is remembered.
pub fn poll_chain_tip<T: Copy>(latest_chain_tip: &mut Option<T>, poll: TipPoll<T>) -> (tip: Result<
    T,
    Error,
>)
    ensures
        tip == (match poll {
            TipPoll::TimedOut => Err::<T, Error>(Error::TxSyncTimeout),
            TipPoll::Failed => Err::<T, Error>(Error::TxSyncFailed),
            TipPoll::Tip(tip) => Ok::<T, Error>(tip),
        }),
        *final(latest_chain_tip) == (match poll {
            TipPoll::Tip(tip) => Some(tip),
            _ => *old(latest_chain_tip),
        }),
{
    match poll {
        TipPoll::TimedOut => Err(Error::TxSyncTimeout),
        TipPoll::Failed => Err(Error::TxSyncFailed),
        TipPoll::Tip(tip) => {
            *latest_chain_tip = Some(tip);
            Ok(tip)
        },
    }
}

/// What a poll for a better tip gave.
#[derive(Clone, Copy, Debug)]
pub enum BestTipPoll<T> {
    Failed,
    /// There is a better tip. The listeners followed it, at least in part, or not at all.
    Better { tip: T, blocks_connected: bool },
    /// There is no better tip.
    NotBetter,
}

/// A step of a poll.
#[derive(Clone, Copy, Debug)]
pub enum PollStep {
    /// Poll for the tip of the chain.
    FetchTip,
    /// Poll for a better tip, and have the listeners follow it.
    FollowTip,
    /// Ask for the mempool.
    FetchMempool,
    /// Put the mempool's transactions into the wallet.
    ApplyMempool,
    /// Write down what the node remembers.
    WriteMetrics,
    /// The poll is over.
    Return(Result<(), Error>),
}

/// The step that a poll begins with.
pub fn first_poll_step<T>(latest_chain_tip: &Option<T>) -> (step: PollStep)
    ensures
        step == (if *latest_chain_tip is Some {
            PollStep::FollowTip
        } else {
            PollStep::FetchTip
        }),
{
    if latest_chain_tip.is_some() {
        PollStep::FollowTip
    } else {
        PollStep::FetchTip
    }
}

/// The step that follows a step with a result.
pub open spec fn poll_step_after(step: PollStep, result: Result<(), Error>) -> PollStep {
    match step {
        PollStep::FetchTip => match result {
            Ok(()) => PollStep::FollowTip,
            Err(e) => PollStep::Return(Err(e)),
        },
        PollStep::FollowTip => match result {
            Ok(()) => PollStep::FetchMempool,
            Err(_) => PollStep::Return(Err(Error::TxSyncFailed)),
        },
        PollStep::FetchMempool => match result {
            Ok(()) => PollStep::ApplyMempool,
            Err(_) => PollStep::Return(Err(Error::TxSyncFailed)),
        },
        PollStep::ApplyMempool => PollStep::WriteMetrics,
        PollStep::WriteMetrics => PollStep::Return(result),
        PollStep::Return(r) => PollStep::Return(r),
    }
}

/// The step that follows a step with a result. A wallet that does not take the mempool's transactions
/// does not end the poll.
pub fn after_poll_step(step: PollStep, result: Result<(), Error>) -> (next: PollStep)
    ensures
        next == poll_step_after(step, result),
{
    match step {
        PollStep::FetchTip => match result {
            Ok(()) => PollStep::FollowTip,
            Err(e) => PollStep::Return(Err(e)),
        },
        PollStep::FollowTip => match result {
            Ok(()) => PollStep::FetchMempool,
            Err(_) => PollStep::Return(Err(Error::TxSyncFailed)),
        },
        PollStep::FetchMempool => match result {
            Ok(()) => PollStep::ApplyMempool,
            Err(_) => PollStep::Return(Err(Error::TxSyncFailed)),
        },
        PollStep::ApplyMempool => PollStep::WriteMetrics,
        PollStep::WriteMetrics => PollStep::Return(result),
        PollStep::Return(r) => PollStep::Return(r),
    }
}

/// Takes in what a poll for a better tip gave. A better tip that the listeners followed is remembered.
pub fn note_best_tip<T>(latest_chain_tip: &mut Option<T>, poll: BestTipPoll<T>) -> (result: Result<
    (),
    Error,
>)
    ensures
        result == (if poll is Failed {
            Err::<(), Error>(Error::TxSyncFailed)
        } else {
            Ok::<(), Error>(())
        }),
        *final(latest_chain_tip) == (match poll {
            BestTipPoll::Better { tip, blocks_connected: true } => Some(tip),
            _ => *old(latest_chain_tip),
        }),
{
    match poll {
        BestTipPoll::Failed => Err(Error::TxSyncFailed),
        BestTipPoll::Better { tip, blocks_connected } => {
            if blocks_connected {
                *latest_chain_tip = Some(tip);
            }
            Ok(())
        },
        BestTipPoll::NotBetter => Ok(()),
    }
}

/// Notes the time at which both wallets were synced.
pub fn note_wallets_synced(metrics: &mut NodeMetrics, now: Option<u64>)
    ensures
        *final(metrics) == (NodeMetrics {
            latest_lightning_wallet_sync_timestamp: now,
            latest_onchain_wallet_sync_timestamp: now,
            ..*old(metrics)
        }),
{
    metrics.latest_lightning_wallet_sync_timestamp = now;
    metrics.latest_onchain_wallet_sync_timestamp = now;
}

/// What is asked of the node for the fee rate of a target.
#[derive(Clone, Copy, Debug, PartialEq, Eq, Structural)]
pub enum FeeRateQuery {
    /// The minimum of its mempool.
    MempoolMinimum,
    /// An estimate for the target's number of blocks.
    Estimate(FeeRateEstimationMode),
}

/// What is asked of the node for the fee rate of a target.
pub fn fee_rate_query(target: ConfirmationTarget) -> (query: FeeRateQuery)
    ensures
        query == (match target {
            ConfirmationTarget::Lightning(
                LdkConfirmationTarget::MinAllowedAnchorChannelRemoteFee,
            ) => FeeRateQuery::MempoolMinimum,
            ConfirmationTarget::Lightning(LdkConfirmationTarget::MaximumFeeEstimate) =>
                FeeRateQuery::Estimate(FeeRateEstimationMode::Conservative),
            ConfirmationTarget::Lightning(LdkConfirmationTarget::UrgentOnChainSweep) =>
                FeeRateQuery::Estimate(FeeRateEstimationMode::Conservative),
            _ => FeeRateQuery::Estimate(FeeRateEstimationMode::Economical),
        }),
{
    match target {
        ConfirmationTarget::Lightning(LdkConfirmationTarget::MinAllowedAnchorChannelRemoteFee) =>
            FeeRateQuery::MempoolMinimum,
        ConfirmationTarget::Lightning(LdkConfirmationTarget::MaximumFeeEstimate) =>
            FeeRateQuery::Estimate(FeeRateEstimationMode::Conservative),
        ConfirmationTarget::Lightning(LdkConfirmationTarget::UrgentOnChainSweep) =>
            FeeRateQuery::Estimate(FeeRateEstimationMode::Conservative),
        _ => FeeRateQuery::Estimate(FeeRateEstimationMode::Economical),
    }
}

/// What the node gave for the fee rate of a target, in satoshis per 1000 weight units.
#[derive(Clone, Copy, Debug, PartialEq, Eq, Structural)]
pub enum FeeRateReply {
    TimedOut,
    Failed,
    Rate(u64),
}

/// What a reply means for an update of the fee rates.
#[derive(Clone, Copy, Debug, PartialEq, Eq, Structural)]
pub enum ReplyMeaning {
    /// The rate for the target.
    Use(u64),
    /// The update fails.
    Fail(Error),
    /// The update is skipped.
    Skip,
}

/// What a reply means for an update of the fee rates. A failure is fatal on the main network; on
/// networks without a fee market a rate of 250 takes its place; elsewhere the update is skipped.
pub open spec fn meaning_of(network: Network, reply: FeeRateReply) -> ReplyMeaning {
    match reply {
        FeeRateReply::TimedOut => ReplyMeaning::Fail(Error::FeerateEstimationUpdateTimeout),
        FeeRateReply::Rate(rate) => ReplyMeaning::Use(rate),
        FeeRateReply::Failed => match network {
            Network::Bitcoin => ReplyMeaning::Fail(Error::FeerateEstimationUpdateFailed),
            Network::Regtest => ReplyMeaning::Use(250),
            Network::Signet => ReplyMeaning::Use(250),
            Network::Testnet => ReplyMeaning::Skip,
            Network::Testnet4 => ReplyMeaning::Skip,
        },
    }
}

/// What a reply means for an update of the fee rates.
pub fn fee_rate_reply_meaning(network: Network, reply: FeeRateReply) -> (meaning: ReplyMeaning)
    ensures
        meaning == meaning_of(network, reply),
{
    match reply {
        FeeRateReply::TimedOut => ReplyMeaning::Fail(Error::FeerateEstimationUpdateTimeout),
        FeeRateReply::Rate(rate) => ReplyMeaning::Use(rate),
        FeeRateReply::Failed => match network {
            Network::Bitcoin => ReplyMeaning::Fail(Error::FeerateEstimationUpdateFailed),
            Network::Regtest => ReplyMeaning::Use(250),
            Network::Signet => ReplyMeaning::Use(250),
            Network::Testnet => ReplyMeaning::Skip,
            Network::Testnet4 => ReplyMeaning::Skip,
        },
    }
}

/// The first reply that ends an update of the fee rates, if there is one.
pub open spec fn first_end(network: Network, replies: Seq<FeeRateReply>) -> Option<ReplyMeaning>
    decreases replies.len(),
{
    if replies.len() == 0 {
        None
    } else if first_end(network, replies.drop_last()) is Some {
        first_end(network, replies.drop_last())
    } else {
        let meaning = meaning_of(network, replies.last());
        if meaning is Use {
            None
        } else {
            Some(meaning)
        }
    }
}

/// The rates that replies give.
pub open spec fn rates_of(network: Network, replies: Seq<FeeRateReply>) -> Seq<u64> {
    Seq::new(
        replies.len(),
        |i: int|
            match meaning_of(network, replies[i]) {
                ReplyMeaning::Use(rate) => rate,
                _ => 0,
            },
    )
}

/// The new fee rates, from the replies for the targets, one after another. The first reply that ends
/// the update decides; `None` says that it was skipped. Behind such a reply no others are needed.
pub fn update_fee_rate_estimates<A: Fn(ConfirmationTarget, u64) -> u64>(
    network: Network,
    targets: &Vec<ConfirmationTarget>,
    replies: &Vec<FeeRateReply>,
    adjust: &A,
) -> (cache: Result<Option<FeeRateCache>, Error>)
    requires
        targets@.no_duplicates(),
        replies@.len() == targets@.len() || first_end(network, replies@) is Some,
        forall|target: ConfirmationTarget, rate: u64| #[trigger]
            call_requires(adjust, (target, rate)),
    ensures
        match first_end(network, replies@) {
            Some(ReplyMeaning::Fail(e)) => cache == Err::<Option<FeeRateCache>, Error>(e),
            Some(_) => cache == Ok::<Option<FeeRateCache>, Error>(None),
            None => cache matches Ok(Some(cache)) && crate::chain::fees::holds_rates(
                cache@,
                targets@,
                rates_of(network, replies@),
                *adjust,
            ),
        },
{
    let mut rates: Vec<u64> = Vec::new();
    let mut i: usize = 0;
    assert(replies@.subrange(0, 0) =~= Seq::empty());
    while i < replies.len()
        invariant
            i <= replies@.len(),
            rates@ == rates_of(network, replies@.subrange(0, i as int)),
            first_end(network, replies@.subrange(0, i as int)) is None,
        decreases replies@.len() - i,
    {
        let ghost now = replies@.subrange(0, i + 1);
        proof {
            assert(now.drop_last() =~= replies@.subrange(0, i as int));
            assert(now.last() == replies@[i as int]);
        }
        match fee_rate_reply_meaning(network, replies[i]) {
            ReplyMeaning::Use(rate) => {
                rates.push(rate);
                assert(rates@ =~= rates_of(network, now));
            },
            ReplyMeaning::Fail(e) => {
                proof {
                    lemma_first_end_stays(network, replies@, i + 1);
                }
                return Err(e);
            },
            ReplyMeaning::Skip => {
                proof {
                    lemma_first_end_stays(network, replies@, i + 1);
                }
                return Ok(None);
            },
        }
        i += 1;
    }
    assert(replies@.subrange(0, i as int) =~= replies@);
    Ok(Some(fee_rate_cache(targets, &rates, adjust)))
}

/// What ends an update early on ends it whatever follows.
proof fn lemma_first_end_stays(network: Network, replies: Seq<FeeRateReply>, n: int)
    requires
        0 <= n <= replies.len(),
        first_end(network, replies.subrange(0, n)) is Some,
    ensures
        first_end(network, replies) == first_end(network, replies.subrange(0, n)),
    decreases replies.len() - n,
{
    if n < replies.len() {
        assert(replies.subrange(0, n + 1).drop_last() =~= replies.subrange(0, n));
        lemma_first_end_stays(network, replies, n + 1);
    } else {
        assert(replies.subrange(0, n) =~= replies);
    }
}

/// How transactions that belong together are broadcast.
#[derive(Clone, Copy, Debug, PartialEq, Eq, Structural)]
pub enum PackageBroadcast {
    Nothing,
    /// A single transaction is broadcast by itself.
    Single,
    /// Several are submitted together.
    Package,
}

/// How transactions that belong together are broadcast.
pub fn process_broadcast_package(package: &Vec<Transaction>) -> (broadcast: PackageBroadcast)
    ensures
        broadcast == (if package@.len() == 0 {
            PackageBroadcast::Nothing
        } else if package@.len() == 1 {
            PackageBroadcast::Single
        } else {
            PackageBroadcast::Package
        }),
{
    if package.len() == 1 {
        PackageBroadcast::Single
    } else if package.len() > 1 {
        PackageBroadcast::Package
    } else {
        PackageBroadcast::Nothing
    }
}

/// A client of a Bitcoin Core node.
pub struct BitcoindClient {
    pub kind: ClientKind,
    /// Where the procedures are called.
    pub rpc_endpoint: Endpoint,
    /// What every call carries.
    pub rpc_credentials: String,
    /// Where the REST interface is, where it is used.
    pub rest_endpoint: Option<Endpoint>,
    pub mempool: MempoolCache,
}

/// The credentials of a user.
pub open spec fn credentials_of(rpc_user: Seq<char>, rpc_password: Seq<char>) -> Seq<char> {
    crate::chain::json::base64_text(
        vstd::utf8::encode_utf8(rpc_user + ":"@ + rpc_password),
    )
}

impl BitcoindClient {
    /// Nothing is known of the mempool.
    pub open spec fn is_new(self) -> bool {
        &&& self.mempool.latest_mempool_timestamp == 0
        &&& self.mempool.entries@ == Map::<
            crate::types::Txid,
            crate::chain::mempool::MempoolEntry,
        >::empty()
        &&& self.mempool.txs@ == Map::<crate::types::Txid, (Transaction, u64)>::empty()
    }

    /// Creates a new RPC API client for the chain interactions with Bitcoin Core.
    pub fn new_rpc(host: String, port: u16, rpc_user: &str, rpc_password: &str) -> (client: Self)
        ensures
            client.is_new(),
            client.kind == ClientKind::Rpc,
            client.rpc_endpoint.host == host,
            client.rpc_endpoint.port == port,
            client.rpc_endpoint.path@ == "/"@,
            client.rpc_credentials@ == credentials_of(rpc_user@, rpc_password@),
            client.rest_endpoint is None,
    {
        BitcoindClient {
            kind: ClientKind::Rpc,
            rpc_endpoint: crate::chain::json::endpoint(host, port),
            rpc_credentials: crate::chain::json::rpc_credentials(rpc_user, rpc_password),
            rest_endpoint: None,
            mempool: MempoolCache::new(),
        }
    }

    /// Creates a new, primarily REST API client for the chain interactions with Bitcoin Core.
    ///
    /// Aside the required REST host and port, we provide RPC configuration options for necessary
    /// calls not supported by the REST interface.
    pub fn new_rest(
        rest_host: String,
        rest_port: u16,
        rpc_host: String,
        rpc_port: u16,
        rpc_user: &str,
        rpc_password: &str,
    ) -> (client: Self)
        ensures
            client.is_new(),
            client.kind == ClientKind::Rest,
            client.rpc_endpoint.host == rpc_host,
            client.rpc_endpoint.port == rpc_port,
            client.rpc_endpoint.path@ == "/"@,
            client.rpc_credentials@ == credentials_of(rpc_user@, rpc_password@),
            client.rest_endpoint matches Some(rest) && rest.host == rest_host && rest.port
                == rest_port && rest.path@ == "/rest"@,
    {
        BitcoindClient {
            kind: ClientKind::Rest,
            rpc_endpoint: crate::chain::json::endpoint(rpc_host, rpc_port),
            rpc_credentials: crate::chain::json::rpc_credentials(rpc_user, rpc_password),
            rest_endpoint: Some(crate::chain::json::rest_endpoint(rest_host, rest_port)),
            mempool: MempoolCache::new(),
        }
    }
}

/// Of the channel monitors, the one counts that is furthest behind, and of several that are equally far
/// behind the first. There always is exactly one, unless there are no monitors.
pub proof fn law_the_monitor_furthest_behind_counts(blocks: Seq<BestBlock>, i: int, j: int)
    ensures
        is_lowest(blocks, i) && 0 <= j < blocks.len() ==> blocks[i].height <= blocks[j].height && (
        blocks[i].height == blocks[j].height ==> i <= j),
        is_lowest(blocks, i) && is_lowest(blocks, j) ==> i == j,
        blocks.len() > 0 ==> exists|k: int| is_lowest(blocks, k),
    decreases blocks.len(),
{
    if blocks.len() == 1 {
        assert(is_lowest(blocks, 0));
    } else if blocks.len() > 1 {
        let front = blocks.drop_last();
        law_the_monitor_furthest_behind_counts(front, i, j);
        let k = choose|k: int| is_lowest(front, k);
        let last = blocks.len() - 1;
        if blocks[last].height < front[k].height {
            assert forall|m: int| 0 <= m < last implies blocks[last].height < (
            #[trigger] blocks[m]).height by {
                assert(front[m] == blocks[m]);
            }
            assert(is_lowest(blocks, last));
        } else {
            assert forall|m: int| 0 <= m < blocks.len() implies blocks[k].height <= (
            #[trigger] blocks[m]).height by {
                if m < last {
                    assert(front[m] == blocks[m]);
                }
            }
            assert forall|m: int| 0 <= m < k implies blocks[k].height < (
            #[trigger] blocks[m]).height by {
                assert(front[m] == blocks[m]);
            }
            assert(is_lowest(blocks, k));
        }
    }
}

/// The pauses after errors that may pass begin with two seconds and double until they reach five minutes.
pub proof fn law_pauses_double(errors: nat, backoff_secs: u64)
    ensures
        backoff_after(0) == 2,
        backoff_after(errors) <= 300,
        backoff_after(errors + 1) == 2 * backoff_after(errors) || (backoff_after(errors + 1) == 300
            && 2 * backoff_after(errors) > 300),
        doubled(backoff_secs) == 2 * backoff_secs || (doubled(backoff_secs) == 300 && 2
            * backoff_secs > 300),
        doubled(backoff_secs) <= 300,
{
    law_backoff(errors);
}

/// What the loop does until its listeners are synced: it pauses as long as it has to after an error that may
/// pass, and longer after the next; after one that will not pass it pauses five minutes; and after each
/// pause it tries again.
pub proof fn law_failed_syncs_are_tried_again(backoff_secs: u64)
    ensures
        ({
            let state = SyncLoop::Initial { backoff_secs };
            let (transient, pause) = follow(
                state,
                SyncLoopEvent::Attempted(SyncAttempt::TransientError),
            );
            &&& pause == SyncLoopAction::Pause(backoff_secs)
            &&& transient is Initial
            &&& backoff_secs <= 150 ==> transient->backoff_secs == 2 * backoff_secs
            &&& backoff_secs > 150 ==> transient->backoff_secs == 300
            &&& follow(state, SyncLoopEvent::Attempted(SyncAttempt::PersistentError)) == (
                state,
                SyncLoopAction::Pause(300),
            )
            &&& follow(state, SyncLoopEvent::Paused) == (state, SyncLoopAction::SyncListeners)
            &&& follow(state, SyncLoopEvent::Attempted(SyncAttempt::Synced)) == (
                SyncLoop::Polling { last_best_block_hash: None },
                SyncLoopAction::StartPolling,
            )
            &&& follow(state, SyncLoopEvent::PollTick) == (state, SyncLoopAction::Wait)
        }),
{
}

/// What the loop does once its listeners are synced: it polls whenever it is time to, and updates the fee
/// rates exactly if the best block is another one than that of the last update.
pub proof fn law_polling_goes_on(last: Option<BlockHash>, tip: BlockHash, succeeded: bool)
    ensures
        ({
            let state = SyncLoop::Polling { last_best_block_hash: last };
            let tick = SyncLoopEvent::FeeRateTick { best_block_hash: tip };
            let updated = SyncLoopEvent::FeeRatesUpdated { succeeded, best_block_hash: tip };
            &&& follow(state, SyncLoopEvent::PollTick) == (state, SyncLoopAction::PollListeners)
            &&& follow(state, tick).0 == state
            &&& last == Some(tip) ==> follow(state, tick).1 == SyncLoopAction::Wait
            &&& last != Some(tip) ==> follow(state, tick).1 == SyncLoopAction::UpdateFeeRates
            &&& succeeded ==> follow(state, updated).0 == (SyncLoop::Polling {
                last_best_block_hash: Some(tip),
            })
            &&& !succeeded ==> follow(state, updated).0 == state
            &&& follow(state, updated).1 == SyncLoopAction::Wait
            &&& follow(state, SyncLoopEvent::Paused) == (state, SyncLoopAction::Wait)
            &&& follow(state, SyncLoopEvent::Attempted(SyncAttempt::Synced)) == (
                state,
                SyncLoopAction::Wait,
            )
        }),
{
}

/// A poll that succeeds throughout fetches the tip, follows it, fetches the mempool, applies it and notes
/// the time, in this order. What fails ends it, but for the mempool, whose changes are not waited for.
pub proof fn law_polls_go_in_order(e: Error, result: Result<(), Error>)
    ensures
        poll_step_after(PollStep::FetchTip, Ok(())) == PollStep::FollowTip,
        poll_step_after(PollStep::FollowTip, Ok(())) == PollStep::FetchMempool,
        poll_step_after(PollStep::FetchMempool, Ok(())) == PollStep::ApplyMempool,
        poll_step_after(PollStep::ApplyMempool, result) == PollStep::WriteMetrics,
        poll_step_after(PollStep::WriteMetrics, result) == PollStep::Return(result),
        poll_step_after(PollStep::FetchTip, Err(e)) == PollStep::Return(Err(e)),
        poll_step_after(PollStep::FollowTip, Err(e)) == PollStep::Return(Err(Error::TxSyncFailed)),
        poll_step_after(PollStep::FetchMempool, Err(e)) == PollStep::Return(
            Err(Error::TxSyncFailed),
        ),
        poll_step_after(PollStep::Return(result), Err(e)) == PollStep::Return(result),
{
}

/// A fee rate that is told is used as it is, whatever the network. One that is not told in time fails the
/// update. One that is not told at all fails it on the main network, counts as the lowest rate on networks
/// of one's own, and leaves the rates as they are on public test networks.
pub proof fn law_what_fee_rate_replies_mean(network: Network, rate: u64)
    ensures
        meaning_of(network, FeeRateReply::Rate(rate)) == ReplyMeaning::Use(rate),
        meaning_of(network, FeeRateReply::TimedOut) == ReplyMeaning::Fail(
            Error::FeerateEstimationUpdateTimeout,
        ),
        meaning_of(network, FeeRateReply::Failed) is Fail <==> network == Network::Bitcoin,
        meaning_of(Network::Bitcoin, FeeRateReply::Failed) == ReplyMeaning::Fail(
            Error::FeerateEstimationUpdateFailed,
        ),
        meaning_of(Network::Regtest, FeeRateReply::Failed) == ReplyMeaning::Use(250),
        meaning_of(Network::Signet, FeeRateReply::Failed) == ReplyMeaning::Use(250),
        meaning_of(Network::Testnet, FeeRateReply::Failed) == ReplyMeaning::Skip,
        meaning_of(Network::Testnet4, FeeRateReply::Failed) == ReplyMeaning::Skip,
{
}

/// The first reply that cannot be used decides on the update, and where all can be used, each of the rates
/// is that of its reply.
pub proof fn law_the_first_unusable_reply_decides(
    network: Network,
    replies: Seq<FeeRateReply>,
    i: int,
)
    requires
        0 <= i < replies.len(),
    ensures
        first_end(network, replies) is None ==> meaning_of(network, replies[i]) == ReplyMeaning::Use(
            rates_of(network, replies)[i],
        ),
        !(meaning_of(network, replies[i]) is Use) && (forall|j: int|
            0 <= j < i ==> meaning_of(network, #[trigger] replies[j]) is Use) ==> first_end(
            network,
            replies,
        ) == Some(meaning_of(network, replies[i])),
        rates_of(network, replies).len() == replies.len(),
    decreases replies.len(),
{
    let front = replies.drop_last();
    if i < front.len() {
        law_the_first_unusable_reply_decides(network, front, i);
        assert(front[i] == replies[i]);
        if forall|j: int| 0 <= j < i ==> meaning_of(network, #[trigger] replies[j]) is Use {
            assert forall|j: int| 0 <= j < i implies meaning_of(
                network,
                #[trigger] front[j],
            ) is Use by {
                assert(front[j] == replies[j]);
            }
        }
        assert(rates_of(network, front)[i] == rates_of(network, replies)[i]);
    } else if forall|j: int| 0 <= j < i ==> meaning_of(network, #[trigger] replies[j]) is Use {
        lemma_no_end(network, front, replies);
    }
}

proof fn lemma_no_end(network: Network, front: Seq<FeeRateReply>, replies: Seq<FeeRateReply>)
    requires
        front.len() <= replies.len(),
        forall|j: int| 0 <= j < front.len() ==> #[trigger] front[j] == replies[j],
        forall|j: int|
            0 <= j < front.len() ==> meaning_of(network, #[trigger] replies[j]) is Use,
    ensures
        first_end(network, front) is None,
    decreases front.len(),
{
    if front.len() > 0 {
        let rest = front.drop_last();
        assert forall|j: int| 0 <= j < rest.len() implies #[trigger] rest[j] == replies[j] by {
            assert(rest[j] == front[j]);
        }
        lemma_no_end(network, rest, replies);
        assert(front[front.len() - 1] == replies[front.len() - 1]);
    }
}

/// The credentials are the name and the password with a colon between them, in Base64, and a client begins
/// with an empty mempool.
pub proof fn law_clients_begin_with_their_credentials(
    client: BitcoindClient,
    user: Seq<char>,
    password: Seq<char>,
)
    ensures
        credentials_of(user, password) == crate::chain::json::base64_text(
            vstd::utf8::encode_utf8(user + seq![':'] + password),
        ),
        client.is_new() ==> client.mempool.latest_mempool_timestamp == 0
            && client.mempool.entries@.dom() =~= Set::empty() && client.mempool.txs@.dom()
            =~= Set::empty(),
{
    reveal_strlit(":");
    assert(":"@ =~= seq![':']);
}

/// What a fee rate is asked for with: the least that the mempool takes for the least that a peer may pay, a
/// conservative estimate for the highest rate and for urgent sweeps, and an economical one for all else.
pub proof fn law_how_fee_rates_are_asked_for(target: ConfirmationTarget, query: FeeRateQuery)
    requires
        call_ensures(fee_rate_query, (target,), query),
    ensures
        query is MempoolMinimum <==> target == ConfirmationTarget::Lightning(
            LdkConfirmationTarget::MinAllowedAnchorChannelRemoteFee,
        ),
        query == FeeRateQuery::Estimate(FeeRateEstimationMode::Conservative) <==> target
            == ConfirmationTarget::Lightning(LdkConfirmationTarget::MaximumFeeEstimate) || target
            == ConfirmationTarget::Lightning(LdkConfirmationTarget::UrgentOnChainSweep),
{
}

/// Nothing is broadcast for an empty package, a single transaction on its own, and several as a package. A
/// poll begins with the tip where none is known yet.
pub proof fn law_packages_are_broadcast_together(
    package: Vec<Transaction>,
    broadcast: PackageBroadcast,
    tip: Option<u64>,
    step: PollStep,
)
    requires
        call_ensures(process_broadcast_package, (&package,), broadcast),
        call_ensures(first_poll_step::<u64>, (&tip,), step),
    ensures
        broadcast is Nothing <==> package@.len() == 0,
        broadcast is Single <==> package@.len() == 1,
        broadcast is Package <==> package@.len() >= 2,
        tip is None ==> step == PollStep::FetchTip,
        tip is Some ==> step == PollStep::FollowTip,
{
}

/// A tip that is polled is remembered, and one that cannot be had leaves the one that is known, with an error
/// that tells whether the time was over.
pub proof fn law_polled_tips_are_remembered(
    latest: &mut Option<u64>,
    tip: u64,
    polled: Result<u64, Error>,
    kept: &mut Option<u64>,
    failed: Result<u64, Error>,
    late: &mut Option<u64>,
    timed_out: Result<u64, Error>,
)
    requires
        call_ensures(poll_chain_tip::<u64>, (latest, TipPoll::Tip(tip)), polled),
        call_ensures(poll_chain_tip::<u64>, (kept, TipPoll::<u64>::Failed), failed),
        call_ensures(poll_chain_tip::<u64>, (late, TipPoll::<u64>::TimedOut), timed_out),
    ensures
        polled == Ok::<u64, Error>(tip),
        *final(latest) == Some(tip),
        failed == Err::<u64, Error>(Error::TxSyncFailed),
        *final(kept) == *old(kept),
        timed_out == Err::<u64, Error>(Error::TxSyncTimeout),
        *final(late) == *old(late),
{
}

/// A better tip is remembered exactly if blocks were connected on the way to it.
pub proof fn law_better_tips_are_remembered(
    latest: &mut Option<u64>,
    tip: u64,
    blocks_connected: bool,
    noted: Result<(), Error>,
    kept: &mut Option<u64>,
    not_better: Result<(), Error>,
    same: &mut Option<u64>,
    failed: Result<(), Error>,
)
    requires
        call_ensures(
            note_best_tip::<u64>,
            (latest, BestTipPoll::Better { tip, blocks_connected }),
            noted,
        ),
        call_ensures(note_best_tip::<u64>, (kept, BestTipPoll::<u64>::NotBetter), not_better),
        call_ensures(note_best_tip::<u64>, (same, BestTipPoll::<u64>::Failed), failed),
    ensures
        noted is Ok,
        blocks_connected ==> *final(latest) == Some(tip),
        !blocks_connected ==> *final(latest) == *old(latest),
        not_better is Ok,
        *final(kept) == *old(kept),
        failed == Err::<(), Error>(Error::TxSyncFailed),
        *final(same) == *old(same),
{
}

/// The loop begins by syncing its listeners, with the shortest pause, and each step follows the events. Both
/// wallets are noted as synced at the same time.
pub proof fn law_the_loop_follows_its_events(
    begun: (SyncLoop, SyncLoopAction),
    state: &mut SyncLoop,
    event: SyncLoopEvent,
    action: SyncLoopAction,
    metrics: &mut NodeMetrics,
    now: Option<u64>,
)
    requires
        call_ensures(SyncLoop::new, (), begun),
        call_ensures(SyncLoop::step, (state, event), action),
        call_ensures(note_wallets_synced, (metrics, now), ()),
    ensures
        begun == (SyncLoop::Initial { backoff_secs: 2 }, SyncLoopAction::SyncListeners),
        (*final(state), action) == follow(*old(state), event),
        final(metrics).latest_lightning_wallet_sync_timestamp == now,
        final(metrics).latest_onchain_wallet_sync_timestamp == now,
        final(metrics).wallet_sync_timestamps == old(metrics).wallet_sync_timestamps,
        final(metrics).latest_fee_rate_cache_update_timestamp == old(
            metrics
        ).latest_fee_rate_cache_update_timestamp,
{
}

} // verus!
