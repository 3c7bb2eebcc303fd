//! What is done with the different kinds of chain sources, and when.
use crate::chain::events::{Event, SyncType};
use crate::config::{
    BackgroundSyncConfig, ElectrumSyncConfig, EsploraSyncConfig,
    RESOLVED_CHANNEL_MONITOR_ARCHIVAL_INTERVAL, WALLET_SYNC_INTERVAL_MINIMUM_SECS,
};
use crate::error::Error;
use crate::metrics::NodeMetrics;
use vstd::prelude::*;

verus! {

/// Where the node learns of the chain.
#[derive(Clone, Copy, Debug, PartialEq, Eq, Structural)]
pub enum ChainSourceKind {
    Esplora(EsploraSyncConfig),
    Electrum(ElectrumSyncConfig),
    Bitcoind,
}

impl ChainSourceKind {
    /// How the source is synced in the background.
    pub open spec fn background(self) -> Option<BackgroundSyncConfig> {
        match self {
            ChainSourceKind::Esplora(config) => config.background_sync_config,
            ChainSourceKind::Electrum(config) => config.background_sync_config,
            ChainSourceKind::Bitcoind => None,
        }
    }

    /// How the source is synced in the background.
    pub fn background_sync_config(&self) -> (config: Option<BackgroundSyncConfig>)
        ensures
            config == self.background(),
    {
        match self {
            ChainSourceKind::Esplora(config) => config.background_sync_config,
            ChainSourceKind::Electrum(config) => config.background_sync_config,
            ChainSourceKind::Bitcoind => None,
        }
    }

    /// Whether the source is asked for transactions, rather than for blocks.
    pub open spec fn transaction_based(self) -> bool {
        !(self is Bitcoind)
    }
}

/// How the wallets are synced in the background.
#[derive(Clone, Copy, Debug, PartialEq, Eq, Structural)]
pub enum BackgroundSync {
    /// In a loop, at these intervals.
    AtIntervals(BackgroundSyncConfig),
    /// Not at all: the user asks for each sync.
    Disabled,
    /// By polling for blocks.
    PollingBlocks,
}

/// Whom a call to a chain source goes to.
#[derive(Clone, Copy, Debug, PartialEq, Eq, Structural)]
pub enum SyncRoute {
    /// The sync that tells the user of changes.
    WithEvents,
    /// The sync of the Esplora source.
    Esplora,
    /// The sync of the Electrum source.
    Electrum,
    /// Nobody: blocks are polled for.
    Nothing,
}

/// A chain source, and what was handed to it since it was made.
pub struct ChainSource {
    kind: ChainSourceKind,
    has_onchain_wallet: bool,
    has_event_queue: bool,
}

impl ChainSource {
    pub closed spec fn spec_kind(self) -> ChainSourceKind {
        self.kind
    }

    pub closed spec fn onchain_wallet_set(self) -> bool {
        self.has_onchain_wallet
    }

    pub closed spec fn event_queue_set(self) -> bool {
        self.has_event_queue
    }

    /// A source that was just made.
    pub open spec fn is_new(self, kind: ChainSourceKind) -> bool {
        self.spec_kind() == kind && !self.onchain_wallet_set() && !self.event_queue_set()
    }

    pub fn new_esplora(sync_config: EsploraSyncConfig) -> (source: Self)
        ensures
            source.is_new(ChainSourceKind::Esplora(sync_config)),
    {
        ChainSource {
            kind: ChainSourceKind::Esplora(sync_config),
            has_onchain_wallet: false,
            has_event_queue: false,
        }
    }

    pub fn new_electrum(sync_config: ElectrumSyncConfig) -> (source: Self)
        ensures
            source.is_new(ChainSourceKind::Electrum(sync_config)),
    {
        ChainSource {
            kind: ChainSourceKind::Electrum(sync_config),
            has_onchain_wallet: false,
            has_event_queue: false,
        }
    }

    pub fn new_bitcoind() -> (source: Self)
        ensures
            source.is_new(ChainSourceKind::Bitcoind),
    {
        ChainSource {
            kind: ChainSourceKind::Bitcoind,
            has_onchain_wallet: false,
            has_event_queue: false,
        }
    }

    pub fn kind(&self) -> (kind: ChainSourceKind)
        ensures
            kind == self.spec_kind(),
    {
        self.kind
    }

    pub fn set_onchain_wallet(&mut self)
        ensures
            final(self).onchain_wallet_set(),
            final(self).spec_kind() == old(self).spec_kind(),
            final(self).event_queue_set() == old(self).event_queue_set(),
    {
        self.has_onchain_wallet = true;
    }

    pub fn set_event_queue(&mut self)
        ensures
            final(self).event_queue_set(),
            final(self).spec_kind() == old(self).spec_kind(),
            final(self).onchain_wallet_set() == old(self).onchain_wallet_set(),
    {
        self.has_event_queue = true;
    }

    /// Whether a connection is opened when the node starts, and closed when it stops.
    pub fn keeps_connection(&self) -> (keeps: bool)
        ensures
            keeps == (self.spec_kind() is Electrum),
    {
        match self.kind {
            ChainSourceKind::Electrum(_) => true,
            _ => false,
        }
    }

    /// Whether the source can look up transaction outputs.
    pub fn is_utxo_source(&self) -> (is: bool)
        ensures
            is == (self.spec_kind() is Bitcoind),
    {
        match self.kind {
            ChainSourceKind::Bitcoind => true,
            _ => false,
        }
    }

    pub fn is_transaction_based(&self) -> (is: bool)
        ensures
            is == self.spec_kind().transaction_based(),
    {
        match self.kind {
            ChainSourceKind::Esplora(_) => true,
            ChainSourceKind::Electrum(_) => true,
            ChainSourceKind::Bitcoind => false,
        }
    }

    /// Begins to sync in the background. The wallet is known to the source from then on.
    pub fn continuously_sync_wallets(&mut self) -> (sync: BackgroundSync)
        ensures
            final(self).onchain_wallet_set(),
            final(self).spec_kind() == old(self).spec_kind(),
            final(self).event_queue_set() == old(self).event_queue_set(),
            sync == (if !old(self).spec_kind().transaction_based() {
                BackgroundSync::PollingBlocks
            } else {
                match old(self).spec_kind().background() {
                    Some(config) => BackgroundSync::AtIntervals(config),
                    None => BackgroundSync::Disabled,
                }
            }),
    {
        self.set_onchain_wallet();
        match self.kind {
            ChainSourceKind::Bitcoind => BackgroundSync::PollingBlocks,
            _ => match self.kind.background_sync_config() {
                Some(config) => BackgroundSync::AtIntervals(config),
                None => BackgroundSync::Disabled,
            },
        }
    }

    /// Whom a sync of the on-chain wallet goes to. With an event queue, the user is told of changes.
    pub fn sync_onchain_wallet(&self) -> (route: SyncRoute)
        ensures
            route == (if self.event_queue_set() {
                SyncRoute::WithEvents
            } else {
                match self.spec_kind() {
                    ChainSourceKind::Esplora(_) => SyncRoute::Esplora,
                    ChainSourceKind::Electrum(_) => SyncRoute::Electrum,
                    ChainSourceKind::Bitcoind => SyncRoute::Nothing,
                }
            }),
    {
        if self.has_event_queue {
            SyncRoute::WithEvents
        } else {
            match self.kind {
                ChainSourceKind::Esplora(_) => SyncRoute::Esplora,
                ChainSourceKind::Electrum(_) => SyncRoute::Electrum,
                ChainSourceKind::Bitcoind => SyncRoute::Nothing,
            }
        }
    }

    /// Update the background sync configuration at runtime: what is handed to the running loop.
    ///
    /// Returns an error if background syncing was disabled at build time.
    pub fn set_background_sync_config(&self, config: BackgroundSyncConfig) -> (handed: Result<
        BackgroundSyncConfig,
        Error,
    >)
        ensures
            handed == (if self.spec_kind().background() is Some {
                Ok::<BackgroundSyncConfig, Error>(config)
            } else {
                Err::<BackgroundSyncConfig, Error>(Error::BackgroundSyncNotEnabled)
            }),
    {
        if self.kind.background_sync_config().is_some() {
            Ok(config)
        } else {
            Err(Error::BackgroundSyncNotEnabled)
        }
    }

    /// Whether the source passes on which transactions and outputs to look for.
    pub fn registers_filters(&self) -> (registers: bool)
        ensures
            registers == self.spec_kind().transaction_based(),
    {
        self.is_transaction_based()
    }

    /// Begins a sync of the on-chain wallet that tells the user of changes.
    pub fn sync_onchain_wallet_with_events(&self) -> (step: SyncStep)
        requires
            self.spec_kind().transaction_based() || !self.onchain_wallet_set(),
        ensures
            step == (if self.onchain_wallet_set() {
                SyncStep::FetchUpdates
            } else {
                SyncStep::Return(Err(Error::WalletOperationFailed))
            }),
    {
        if self.has_onchain_wallet {
            SyncStep::FetchUpdates
        } else {
            SyncStep::Return(Err(Error::WalletOperationFailed))
        }
    }
}

/// A step of a sync that tells the user of changes.
#[derive(Clone, Copy, Debug)]
pub enum SyncStep {
    /// Note the unconfirmed transactions, then sync the wallets.
    FetchUpdates,
    /// Tell the user of the changes. What failed in the sync is kept for later.
    TellChanges { sync_error: Option<Error> },
    /// Tell the user of evicted transactions.
    TellEvictions,
    /// Tell the user that the sync is complete.
    TellCompletion,
    /// Tell the user of a changed balance.
    TellBalance,
    /// The sync is over.
    Return(Result<(), Error>),
}

/// Who is there to be told of changes, and who knows the balance.
#[derive(Clone, Copy, Debug, PartialEq, Eq, Structural)]
pub struct SyncAudience {
    /// There is a queue of events.
    pub has_event_queue: bool,
    /// The channels and the configuration are known.
    pub knows_channels: bool,
}

/// What a step gave: for the sync of the wallets, what failed in it; otherwise, whether the queue
/// took the news.
pub open spec fn step_after(
    step: SyncStep,
    audience: SyncAudience,
    result: Result<(), Error>,
) -> SyncStep {
    match step {
        SyncStep::FetchUpdates => {
            let sync_error = match result {
                Ok(()) => None,
                Err(e) => Some(e),
            };
            if audience.has_event_queue {
                SyncStep::TellChanges { sync_error }
            } else {
                SyncStep::Return(result)
            }
        },
        SyncStep::TellChanges { sync_error } => if result is Err {
            SyncStep::Return(result)
        } else {
            match sync_error {
                Some(e) => SyncStep::Return(Err(e)),
                None => SyncStep::TellEvictions,
            }
        },
        SyncStep::TellEvictions => SyncStep::TellCompletion,
        SyncStep::TellCompletion => if result is Err {
            SyncStep::Return(result)
        } else if audience.knows_channels {
            SyncStep::TellBalance
        } else {
            SyncStep::Return(Ok(()))
        },
        SyncStep::TellBalance => SyncStep::Return(result),
        SyncStep::Return(r) => SyncStep::Return(r),
    }
}

/// The step that follows a step of a sync. The user is told of changes even where the sync failed;
/// evictions that the queue does not take are skipped; anything else that it does not take ends the
/// sync.
pub fn after_sync_step(
    step: SyncStep,
    audience: SyncAudience,
    result: Result<(), Error>,
) -> (next: SyncStep)
    ensures
        next == step_after(step, audience, result),
{
    match step {
        SyncStep::FetchUpdates => {
            if audience.has_event_queue {
                let sync_error = match result {
                    Ok(()) => None,
                    Err(e) => Some(e),
                };
                SyncStep::TellChanges { sync_error }
            } else {
                SyncStep::Return(result)
            }
        },
        SyncStep::TellChanges { sync_error } => {
            if result.is_err() {
                SyncStep::Return(result)
            } else {
                match sync_error {
                    Some(e) => SyncStep::Return(Err(e)),
                    None => SyncStep::TellEvictions,
                }
            }
        },
        SyncStep::TellEvictions => SyncStep::TellCompletion,
        SyncStep::TellCompletion => {
            if result.is_err() {
                SyncStep::Return(result)
            } else if audience.knows_channels {
                SyncStep::TellBalance
            } else {
                SyncStep::Return(Ok(()))
            }
        },
        SyncStep::TellBalance => SyncStep::Return(result),
        SyncStep::Return(r) => SyncStep::Return(r),
    }
}

/// The news that the on-chain wallet is synced.
pub fn sync_completed(synced_block_height: u32) -> (event: Event)
    ensures
        event == (Event::SyncCompleted { sync_type: SyncType::OnchainWallet, synced_block_height }),
{
    Event::SyncCompleted { sync_type: SyncType::OnchainWallet, synced_block_height }
}

/// The step that is reached after some results.
pub open spec fn step_reached(
    step: SyncStep,
    audience: SyncAudience,
    results: Seq<Result<(), Error>>,
) -> SyncStep
    decreases results.len(),
{
    if results.len() == 0 {
        step
    } else {
        step_after(step_reached(step, audience, results.drop_last()), audience, results.last())
    }
}

/// A sync in which something failed never reports success, and is never announced as complete.
pub proof fn law_a_failed_sync_is_not_announced(
    audience: SyncAudience,
    error: Error,
    results: Seq<Result<(), Error>>,
)
    requires
        results.len() > 0,
        results[0] == Err::<(), Error>(error),
    ensures
        ({
            let step = step_reached(SyncStep::FetchUpdates, audience, results);
            ||| step == (SyncStep::TellChanges { sync_error: Some(error) })
            ||| step matches SyncStep::Return(result) && result is Err
        }),
    decreases results.len(),
{
    if results.len() == 1 {
        assert(results.drop_last().len() == 0);
        assert(step_reached(SyncStep::FetchUpdates, audience, results.drop_last())
            == SyncStep::FetchUpdates);
        assert(results.last() == results[0]);
    } else {
        law_a_failed_sync_is_not_announced(audience, error, results.drop_last());
    }
}

/// A sync is over after at most five steps.
pub proof fn law_a_sync_ends(audience: SyncAudience, results: Seq<Result<(), Error>>)
    requires
        results.len() == 5,
    ensures
        step_reached(SyncStep::FetchUpdates, audience, results) is Return,
{
    reveal_with_fuel(step_reached, 6);
}

/// The intervals at which the wallets are synced.
#[derive(Clone, Copy, Debug, PartialEq, Eq, Structural)]
pub struct SyncIntervals {
    pub onchain_wallet_secs: u64,
    pub lightning_wallet_secs: u64,
    pub fee_rate_cache_secs: u64,
    /// Whether the first update of fee rates is left out.
    pub skip_first_fee_rate_update: bool,
}

/// An interval, but no less than the minimum.
pub open spec fn at_least_minimum(secs: u64) -> u64 {
    if secs < WALLET_SYNC_INTERVAL_MINIMUM_SECS {
        WALLET_SYNC_INTERVAL_MINIMUM_SECS
    } else {
        secs
    }
}

/// The intervals that a configuration stands for.
pub open spec fn intervals_of(config: BackgroundSyncConfig, starting: bool) -> SyncIntervals {
    SyncIntervals {
        onchain_wallet_secs: at_least_minimum(config.onchain_wallet_sync_interval_secs),
        lightning_wallet_secs: at_least_minimum(config.lightning_wallet_sync_interval_secs),
        fee_rate_cache_secs: at_least_minimum(config.fee_rate_cache_update_interval_secs),
        skip_first_fee_rate_update: starting,
    }
}

fn enforce_minimum(secs: u64) -> (enforced: u64)
    ensures
        enforced == at_least_minimum(secs),
{
    if secs < WALLET_SYNC_INTERVAL_MINIMUM_SECS {
        WALLET_SYNC_INTERVAL_MINIMUM_SECS
    } else {
        secs
    }
}

/// The intervals that a configuration stands for. When starting up, the fee rates were just updated.
pub fn sync_intervals(config: &BackgroundSyncConfig, starting: bool) -> (intervals: SyncIntervals)
    ensures
        intervals == intervals_of(*config, starting),
{
    SyncIntervals {
        onchain_wallet_secs: enforce_minimum(config.onchain_wallet_sync_interval_secs),
        lightning_wallet_secs: enforce_minimum(config.lightning_wallet_sync_interval_secs),
        fee_rate_cache_secs: enforce_minimum(config.fee_rate_cache_update_interval_secs),
        skip_first_fee_rate_update: starting,
    }
}

/// What the loop that syncs in the background waits for.
#[derive(Clone, Copy, Debug, PartialEq, Eq, Structural)]
pub enum LoopEvent {
    Stop,
    ConfigChanged(BackgroundSyncConfig),
    OnchainWalletTick,
    FeeRateTick,
    LightningWalletTick,
}

/// What the loop that syncs in the background does next.
#[derive(Clone, Copy, Debug, PartialEq, Eq, Structural)]
pub enum LoopAction {
    Return,
    SetIntervals(SyncIntervals),
    SyncOnchainWallet,
    UpdateFeeRates,
    SyncLightningWallet,
}

/// What the loop that syncs in the background does next. New intervals begin with a sync of
/// everything.
pub fn tx_based_sync_loop_step(event: LoopEvent) -> (action: LoopAction)
    ensures
        action == (match event {
            LoopEvent::Stop => LoopAction::Return,
            LoopEvent::ConfigChanged(config) => LoopAction::SetIntervals(
                intervals_of(config, false),
            ),
            LoopEvent::OnchainWalletTick => LoopAction::SyncOnchainWallet,
            LoopEvent::FeeRateTick => LoopAction::UpdateFeeRates,
            LoopEvent::LightningWalletTick => LoopAction::SyncLightningWallet,
        }),
{
    match event {
        LoopEvent::Stop => LoopAction::Return,
        LoopEvent::ConfigChanged(config) => LoopAction::SetIntervals(
            sync_intervals(&config, false),
        ),
        LoopEvent::OnchainWalletTick => LoopAction::SyncOnchainWallet,
        LoopEvent::FeeRateTick => LoopAction::UpdateFeeRates,
        LoopEvent::LightningWalletTick => LoopAction::SyncLightningWallet,
    }
}

/// A minimum of 10 seconds is enforced for every interval.
pub proof fn law_intervals_have_a_minimum(config: BackgroundSyncConfig, starting: bool)
    ensures
        intervals_of(config, starting).onchain_wallet_secs >= 10,
        intervals_of(config, starting).lightning_wallet_secs >= 10,
        intervals_of(config, starting).fee_rate_cache_secs >= 10,
{
}

/// Whether it is time to archive the monitors of resolved channels.
pub open spec fn archival_due(last: Option<u32>, cur_height: u32) -> bool {
    match last {
        None => true,
        Some(h) => cur_height >= h + RESOLVED_CHANNEL_MONITOR_ARCHIVAL_INTERVAL,
    }
}

/// Whether the monitors of resolved channels are archived at a height. If so, the height is noted, and
/// what the node remembers has to be written down.
pub fn periodically_archive_fully_resolved_monitors(
    metrics: &mut NodeMetrics,
    cur_height: u32,
) -> (archive: bool)
    requires
        old(metrics).latest_channel_monitor_archival_height matches Some(h) ==> h + 6 <= u32::MAX,
    ensures
        archive == archival_due(old(metrics).latest_channel_monitor_archival_height, cur_height),
        *final(metrics) == (NodeMetrics {
            latest_channel_monitor_archival_height: if archive {
                Some(cur_height)
            } else {
                old(metrics).latest_channel_monitor_archival_height
            },
            ..*old(metrics)
        }),
{
    let should_archive = match metrics.latest_channel_monitor_archival_height {
        None => true,
        Some(h) => cur_height >= h + RESOLVED_CHANNEL_MONITOR_ARCHIVAL_INTERVAL,
    };
    if should_archive {
        metrics.latest_channel_monitor_archival_height = Some(cur_height);
    }
    should_archive
}

/// Ends a sync of the Lightning wallet: its time is noted where it succeeded, and what the node
/// remembers has to be written down.
pub fn finish_lightning_sync(
    metrics: &mut NodeMetrics,
    result: Result<(), Error>,
    now: Option<u64>,
) -> (write_metrics: bool)
    ensures
        write_metrics == (result is Ok),
        *final(metrics) == (NodeMetrics {
            latest_lightning_wallet_sync_timestamp: if result is Ok {
                now
            } else {
                old(metrics).latest_lightning_wallet_sync_timestamp
            },
            ..*old(metrics)
        }),
{
    if result.is_ok() {
        metrics.latest_lightning_wallet_sync_timestamp = now;
        true
    } else {
        false
    }
}

/// Ends an update of the fee rates: its time is noted where it succeeded, and what the node remembers
/// has to be written down.
pub fn finish_fee_rate_update(
    metrics: &mut NodeMetrics,
    updated: bool,
    now: Option<u64>,
) -> (write_metrics: bool)
    ensures
        write_metrics == updated,
        *final(metrics) == (NodeMetrics {
            latest_fee_rate_cache_update_timestamp: if updated {
                now
            } else {
                old(metrics).latest_fee_rate_cache_update_timestamp
            },
            ..*old(metrics)
        }),
{
    if updated {
        metrics.latest_fee_rate_cache_update_timestamp = now;
    }
    updated
}

/// The background sync of a source is that of its configuration, and a full node has none: it is polled for
/// blocks. A source begins without a wallet and without a queue of events.
pub proof fn law_sources_sync_as_they_are_configured(
    esplora: EsploraSyncConfig,
    electrum: ElectrumSyncConfig,
    source: ChainSource,
    kind: ChainSourceKind,
)
    ensures
        ChainSourceKind::Esplora(esplora).background() == esplora.background_sync_config,
        ChainSourceKind::Electrum(electrum).background() == electrum.background_sync_config,
        ChainSourceKind::Bitcoind.background() is None,
        ChainSourceKind::Esplora(esplora).transaction_based(),
        ChainSourceKind::Electrum(electrum).transaction_based(),
        !ChainSourceKind::Bitcoind.transaction_based(),
        source.is_new(kind) ==> source.spec_kind() == kind && !source.onchain_wallet_set()
            && !source.event_queue_set(),
{
}

/// The updates of a sync that succeeded are told in order: the changes, the evicted transactions, the
/// completion, and the balance to those that know the channels. Without a queue nothing is told.
pub proof fn law_a_successful_sync_is_told_in_order(audience: SyncAudience, result: Result<(), Error>)
    ensures
        audience.has_event_queue ==> step_after(SyncStep::FetchUpdates, audience, Ok(()))
            == (SyncStep::TellChanges { sync_error: None }),
        !audience.has_event_queue ==> step_after(SyncStep::FetchUpdates, audience, result)
            == SyncStep::Return(result),
        step_after(SyncStep::TellChanges { sync_error: None }, audience, Ok(()))
            == SyncStep::TellEvictions,
        step_after(SyncStep::TellEvictions, audience, result) == SyncStep::TellCompletion,
        audience.knows_channels ==> step_after(SyncStep::TellCompletion, audience, Ok(()))
            == SyncStep::TellBalance,
        !audience.knows_channels ==> step_after(SyncStep::TellCompletion, audience, Ok(()))
            == SyncStep::Return(Ok(())),
        step_after(SyncStep::TellBalance, audience, result) == SyncStep::Return(result),
{
}

/// What fails is returned: an error of the sync after its changes were told, and an error of telling at
/// once, before any other. A sync that has returned stays as it is.
pub proof fn law_errors_of_a_sync_are_returned(
    audience: SyncAudience,
    sync_error: Error,
    e: Error,
    result: Result<(), Error>,
)
    ensures
        audience.has_event_queue ==> step_after(SyncStep::FetchUpdates, audience, Err(e))
            == (SyncStep::TellChanges { sync_error: Some(e) }),
        step_after(SyncStep::TellChanges { sync_error: Some(sync_error) }, audience, Ok(()))
            == SyncStep::Return(Err(sync_error)),
        step_after(SyncStep::TellChanges { sync_error: Some(sync_error) }, audience, Err(e))
            == SyncStep::Return(Err(e)),
        step_after(SyncStep::TellChanges { sync_error: None }, audience, Err(e))
            == SyncStep::Return(Err(e)),
        step_after(SyncStep::TellCompletion, audience, Err(e)) == SyncStep::Return(Err(e)),
        step_after(SyncStep::Return(Err(e)), audience, result) == SyncStep::Return(Err(e)),
        step_after(SyncStep::Return(Ok(())), audience, result) == SyncStep::Return(Ok(())),
{
}

/// Steps follow one another: what is reached with one more result is the step after what was reached.
pub proof fn law_steps_follow_one_another(
    step: SyncStep,
    audience: SyncAudience,
    results: Seq<Result<(), Error>>,
    result: Result<(), Error>,
)
    ensures
        step_reached(step, audience, results.push(result)) == step_after(
            step_reached(step, audience, results),
            audience,
            result,
        ),
        step_reached(step, audience, Seq::empty()) == step,
{
    assert(results.push(result).drop_last() =~= results);
}

/// Intervals of ten seconds and more are kept as they are configured, each for what it is configured for,
/// and shorter ones are ten seconds.
pub proof fn law_longer_intervals_are_kept(config: BackgroundSyncConfig, starting: bool, secs: u64)
    ensures
        secs >= 10 ==> at_least_minimum(secs) == secs,
        secs < 10 ==> at_least_minimum(secs) == 10,
        config.onchain_wallet_sync_interval_secs >= 10 ==> intervals_of(
            config,
            starting,
        ).onchain_wallet_secs == config.onchain_wallet_sync_interval_secs,
        config.lightning_wallet_sync_interval_secs >= 10 ==> intervals_of(
            config,
            starting,
        ).lightning_wallet_secs == config.lightning_wallet_sync_interval_secs,
        config.fee_rate_cache_update_interval_secs >= 10 ==> intervals_of(
            config,
            starting,
        ).fee_rate_cache_secs == config.fee_rate_cache_update_interval_secs,
        intervals_of(config, starting).skip_first_fee_rate_update <==> starting,
{
}

/// Monitors are archived the first time, and then as soon as six blocks came in since, not before.
pub proof fn law_monitors_are_archived_every_six_blocks(last: u32, height: u32)
    ensures
        archival_due(None, height),
        archival_due(Some(last), height) <==> height - last >= 6,
{
}

/// What the sync loop does: each tick does what it is for, new settings set the intervals, without leaving
/// out an update of the fee rates, and a stop ends it.
pub proof fn law_each_tick_does_what_it_is_for(
    config: BackgroundSyncConfig,
    stop: LoopAction,
    changed: LoopAction,
    wallet: LoopAction,
    fees: LoopAction,
    channels: LoopAction,
)
    requires
        call_ensures(tx_based_sync_loop_step, (LoopEvent::Stop,), stop),
        call_ensures(tx_based_sync_loop_step, (LoopEvent::ConfigChanged(config),), changed),
        call_ensures(tx_based_sync_loop_step, (LoopEvent::OnchainWalletTick,), wallet),
        call_ensures(tx_based_sync_loop_step, (LoopEvent::FeeRateTick,), fees),
        call_ensures(tx_based_sync_loop_step, (LoopEvent::LightningWalletTick,), channels),
    ensures
        stop is Return,
        changed matches LoopAction::SetIntervals(intervals) && !intervals.skip_first_fee_rate_update
            && intervals.onchain_wallet_secs == at_least_minimum(
            config.onchain_wallet_sync_interval_secs,
        ) && intervals.lightning_wallet_secs == at_least_minimum(
            config.lightning_wallet_sync_interval_secs,
        ) && intervals.fee_rate_cache_secs == at_least_minimum(
            config.fee_rate_cache_update_interval_secs,
        ),
        wallet is SyncOnchainWallet,
        fees is UpdateFeeRates,
        channels is SyncLightningWallet,
{
}

/// Which way the on-chain wallet is synced: with events wherever there is a queue for them, and otherwise as
/// the source has it. New settings are handed on exactly if the source syncs in the background.
pub proof fn law_how_the_wallet_is_synced(
    source: ChainSource,
    route: SyncRoute,
    config: BackgroundSyncConfig,
    handed: Result<BackgroundSyncConfig, Error>,
)
    requires
        call_ensures(ChainSource::sync_onchain_wallet, (&source,), route),
        call_ensures(ChainSource::set_background_sync_config, (&source, config), handed),
    ensures
        route is WithEvents <==> source.event_queue_set(),
        !source.event_queue_set() ==> (route is Esplora <==> source.spec_kind() is Esplora) && (
        route is Electrum <==> source.spec_kind() is Electrum) && (route is Nothing
            <==> source.spec_kind() is Bitcoind),
        handed is Ok <==> source.spec_kind().background() is Some,
        handed matches Ok(c) ==> c == config,
        handed matches Err(e) ==> e == Error::BackgroundSyncNotEnabled,
{
}

/// Monitors are archived when it is time to, and the height is noted exactly then. A sync of the channels and
/// an update of the fee rates are noted exactly if they succeeded.
pub proof fn law_what_was_done_is_noted(
    archived: &mut NodeMetrics,
    height: u32,
    archive: bool,
    synced: &mut NodeMetrics,
    result: Result<(), Error>,
    now: Option<u64>,
    write: bool,
    priced: &mut NodeMetrics,
    updated: bool,
    write_rates: bool,
)
    requires
        old(archived).latest_channel_monitor_archival_height matches Some(h) ==> h + 6 <= u32::MAX,
        call_ensures(periodically_archive_fully_resolved_monitors, (archived, height), archive),
        call_ensures(finish_lightning_sync, (synced, result, now), write),
        call_ensures(finish_fee_rate_update, (priced, updated, now), write_rates),
    ensures
        archive <==> (old(archived).latest_channel_monitor_archival_height matches Some(h) ==> height
            - h >= 6),
        archive ==> final(archived).latest_channel_monitor_archival_height == Some(height),
        !archive ==> *final(archived) == *old(archived),
        write <==> result is Ok,
        result is Ok ==> final(synced).latest_lightning_wallet_sync_timestamp == now,
        result is Err ==> *final(synced) == *old(synced),
        write_rates <==> updated,
        updated ==> final(priced).latest_fee_rate_cache_update_timestamp == now,
        !updated ==> *final(priced) == *old(priced),
        final(synced).latest_onchain_wallet_sync_timestamp == old(
            synced
        ).latest_onchain_wallet_sync_timestamp,
{
}

/// How a source syncs in the background: a full node is polled for blocks; every other source is synced at
/// the configured intervals, or not at all where none are configured.
pub proof fn law_sources_sync_in_the_background(source: &mut ChainSource, sync: BackgroundSync)
    requires
        call_ensures(ChainSource::continuously_sync_wallets, (source,), sync),
    ensures
        sync is PollingBlocks <==> old(source).spec_kind() is Bitcoind,
        old(source).spec_kind() matches ChainSourceKind::Esplora(config) ==> (match
        config.background_sync_config {
            Some(b) => sync == BackgroundSync::AtIntervals(b),
            None => sync is Disabled,
        }),
        old(source).spec_kind() matches ChainSourceKind::Electrum(config) ==> (match
        config.background_sync_config {
            Some(b) => sync == BackgroundSync::AtIntervals(b),
            None => sync is Disabled,
        }),
        final(source).onchain_wallet_set(),
        final(source).spec_kind() == old(source).spec_kind(),
{
}

} // verus!
