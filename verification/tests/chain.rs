use ldk_node::chain::cbf;
use ldk_node::chain::cbf::{
    after_block_fetch, after_header_fetch, after_match, after_rebuild, after_state_change,
    mark_syncing, native_fee_rate_cache, resume_checkpoint, window_start, ApplyAction,
    BlockApplicator, BlockFeeCache, BlockFetch, CbfEvent, CbfRuntimeStatus, CbfSyncState, ChainOp,
    EventStep, FeeWindow, HeaderFetch, PackageSubmission, RestartAction, RestartState, WindowStep,
};
use ldk_node::chain::esplora;
use ldk_node::chain::esplora::{
    broadcast_notice, finish_onchain_sync, lightning_sync_result, onchain_wallet_request,
    BroadcastEnd, BroadcastNotice, EstimatesReply,
};
use ldk_node::chain::events::{
    check_evicted_transactions, evicted_events, process_wallet_events, BlockTime, Event,
    SeenChange, SyncType, TransactionDetails, WalletEvent,
};
use ldk_node::chain::fees::{fee_rate_cache, rates_for, ConfirmationTarget, LdkConfirmationTarget};
use ldk_node::chain::filters::BlockFilter;
use ldk_node::chain::kyoto;
use ldk_node::chain::kyoto::{
    connection_result, fee_rate_block, fee_rate_cache_from_electrum, fee_rate_cache_from_esplora,
    fee_rate_cache_from_kyoto, is_synced_to, BlockAction, ConnectionWait, IndexedHeader,
    KyotoEvent, KyotoState,
};
use ldk_node::chain::scripts::ScriptSet;
use ldk_node::chain::source::{
    after_sync_step, finish_fee_rate_update, finish_lightning_sync,
    periodically_archive_fully_resolved_monitors, sync_completed, sync_intervals,
    tx_based_sync_loop_step, BackgroundSync, ChainSource, LoopAction, LoopEvent, SyncAudience,
    SyncRoute, SyncStep,
};
use ldk_node::chain::status::{
    after_waiting, task_result, Notice, SyncRole, TaskEnd, WalletSyncStatus,
};
use ldk_node::config::{BackgroundSyncConfig, ElectrumSyncConfig, EsploraSyncConfig};
use ldk_node::error::Error;
use ldk_node::metrics::NodeMetrics;
use ldk_node::sort::sorted;
use ldk_node::transaction::Transaction;
use ldk_node::types::{BestBlock, BlockHash, Network, Txid};
use ldk_node::vec_map::VecMap;

fn hash(id: u8) -> BlockHash {
    BlockHash([id; 32])
}

fn txid(id: u8) -> Txid {
    Txid([id; 32])
}

fn best_block(id: u8, height: u32) -> BestBlock {
    BestBlock { block_hash: hash(id), height }
}

fn shown<T: std::fmt::Debug>(value: T) -> String {
    format!("{:?}", value)
}

// What the user is told.

fn seen(event: WalletEvent) -> SeenChange {
    SeenChange { event, details: None }
}

#[test]
fn news_is_told_once_for_all_wallets() {
    let mut confirmations: VecMap<Txid, BlockTime> = VecMap::new();
    let block = BlockTime { block_hash: hash(9), height: 90, confirmation_time: 900 };
    confirmations.insert(txid(1), block);
    let details = TransactionDetails { amount_sats: -5, inputs: vec![], outputs: vec![] };
    let confirmed = || WalletEvent::TxConfirmed { txid: txid(1) };
    let received = WalletEvent::TxUnconfirmed { txid: txid(2), was_confirmed: false };
    let reorged = WalletEvent::TxUnconfirmed { txid: txid(2), was_confirmed: true };
    let changes = vec![
        SeenChange { event: confirmed(), details: Some(details) },
        seen(confirmed()),
        seen(WalletEvent::TxConfirmed { txid: txid(3) }),
        seen(received.clone()),
        seen(received),
        seen(reorged),
        seen(WalletEvent::TxReplaced {
            txid: txid(4),
            conflicts: vec![(0, txid(5)), (1, txid(6))],
        }),
        seen(WalletEvent::TxDropped { txid: txid(7) }),
        seen(WalletEvent::ChainTipChanged {
            old_tip: best_block(1, 1),
            new_tip: best_block(2, 2),
        }),
    ];
    let events = process_wallet_events(changes, &confirmations);
    assert_eq!(events.len(), 4);
    match &events[0] {
        Event::OnchainTransactionConfirmed {
            txid: told,
            block_hash,
            block_height,
            confirmation_time,
            details,
        } => {
            assert_eq!((*told, *block_hash, *block_height), (txid(1), hash(9), 90));
            assert_eq!((*confirmation_time, details.amount_sats), (900, -5));
        }
        other => panic!("{:?}", other),
    }
    match &events[1] {
        Event::OnchainTransactionReceived { txid: told, details } => {
            assert_eq!(*told, txid(2));
            assert_eq!((details.amount_sats, details.inputs.len()), (0, 0));
        }
        other => panic!("{:?}", other),
    }
    assert_eq!(shown(&events[2]), shown(Event::OnchainTransactionReorged { txid: txid(2) }));
    let replaced = Event::OnchainTransactionReplaced {
        txid: txid(4),
        conflicts: vec![txid(5), txid(6)],
    };
    assert_eq!(shown(&events[3]), shown(replaced));
}

#[test]
fn vanished_transactions_are_told_of_as_evicted() {
    let mut confirmations: VecMap<Txid, BlockTime> = VecMap::new();
    let block = BlockTime { block_hash: hash(9), height: 90, confirmation_time: 900 };
    confirmations.insert(txid(2), block);
    let previous = vec![txid(1), txid(2), txid(3), txid(4)];
    let evicted = check_evicted_transactions(&previous, &vec![txid(3)], &confirmations);
    assert_eq!(evicted, vec![txid(1), txid(4)]);
    let events = evicted_events(&evicted);
    assert_eq!(events.len(), 2);
    assert_eq!(shown(&events[1]), shown(Event::OnchainTransactionEvicted { txid: txid(4) }));
}

// Who runs a sync.

#[test]
fn all_but_the_first_caller_wait() {
    let mut status = WalletSyncStatus::Completed;
    assert!(matches!(status.register_or_subscribe_pending_sync(1), SyncRole::Run));
    assert!(matches!(status.register_or_subscribe_pending_sync(2), SyncRole::Wait));
    assert!(matches!(status.register_or_subscribe_pending_sync(3), SyncRole::Wait));
    assert_eq!(status.propagate_result_to_subscribers(), vec![2, 3]);
    assert!(status.propagate_result_to_subscribers().is_empty());
    assert!(matches!(status.register_or_subscribe_pending_sync(2), SyncRole::Run));

    let lost = Error::WalletOperationFailed;
    assert_eq!(after_waiting(Notice::Result(Ok(())), lost), Ok(()));
    assert_eq!(
        after_waiting(Notice::Result(Err(Error::TxSyncTimeout)), lost),
        Err(Error::TxSyncTimeout)
    );
    assert_eq!(after_waiting(Notice::Lost, lost), Err(lost));
}

#[test]
fn tasks_end_in_one_of_four_ways() {
    let timed_out = Error::TxSyncTimeout;
    let failed = Error::TxSyncFailed;
    assert_eq!(task_result(TaskEnd::Finished(3), timed_out, failed), Ok(3));
    assert_eq!(task_result(TaskEnd::<u8>::TimedOut, timed_out, failed), Err(timed_out));
    assert_eq!(task_result(TaskEnd::<u8>::NotJoined, timed_out, failed), Err(failed));
    assert_eq!(task_result(TaskEnd::<u8>::Failed, timed_out, failed), Err(failed));
}

// The source of the chain.

fn background(onchain: u64, lightning: u64, fees: u64) -> BackgroundSyncConfig {
    BackgroundSyncConfig {
        onchain_wallet_sync_interval_secs: onchain,
        lightning_wallet_sync_interval_secs: lightning,
        fee_rate_cache_update_interval_secs: fees,
    }
}

#[test]
fn sources_are_synced_in_their_own_ways() {
    let config = background(80, 30, 600);
    let sync_config = EsploraSyncConfig { background_sync_config: Some(config) };
    let mut esplora = ChainSource::new_esplora(sync_config);
    assert!(esplora.is_transaction_based() && esplora.registers_filters());
    assert!(!esplora.keeps_connection() && !esplora.is_utxo_source());
    assert!(matches!(esplora.sync_onchain_wallet(), SyncRoute::Esplora));
    assert_eq!(
        shown(esplora.sync_onchain_wallet_with_events()),
        shown(SyncStep::Return(Err(Error::WalletOperationFailed)))
    );
    assert_eq!(
        shown(esplora.continuously_sync_wallets()),
        shown(BackgroundSync::AtIntervals(config))
    );
    assert!(matches!(esplora.sync_onchain_wallet_with_events(), SyncStep::FetchUpdates));
    esplora.set_event_queue();
    assert!(matches!(esplora.sync_onchain_wallet(), SyncRoute::WithEvents));
    let other = background(1, 2, 3);
    assert_eq!(shown(esplora.set_background_sync_config(other)), shown(Ok::<_, Error>(other)));

    let mut electrum = ChainSource::new_electrum(ElectrumSyncConfig {
        background_sync_config: None,
        ..ElectrumSyncConfig::default()
    });
    assert!(electrum.keeps_connection());
    assert!(matches!(electrum.sync_onchain_wallet(), SyncRoute::Electrum));
    assert!(matches!(electrum.continuously_sync_wallets(), BackgroundSync::Disabled));
    assert_eq!(
        electrum.set_background_sync_config(other).unwrap_err(),
        Error::BackgroundSyncNotEnabled
    );

    let mut bitcoind = ChainSource::new_bitcoind();
    assert!(bitcoind.is_utxo_source() && !bitcoind.is_transaction_based());
    assert!(matches!(bitcoind.sync_onchain_wallet(), SyncRoute::Nothing));
    assert!(matches!(bitcoind.continuously_sync_wallets(), BackgroundSync::PollingBlocks));
}

#[test]
fn a_failed_sync_is_not_announced_as_complete() {
    let audience = SyncAudience { has_event_queue: true, knows_channels: true };
    let failed = Err(Error::TxSyncFailed);
    let step = after_sync_step(SyncStep::FetchUpdates, audience, failed);
    assert!(
        matches!(step, SyncStep::TellChanges { sync_error: Some(Error::TxSyncFailed) })
    );
    let step = after_sync_step(step, audience, Ok(()));
    assert!(matches!(step, SyncStep::Return(Err(Error::TxSyncFailed))));

    let mut step = SyncStep::FetchUpdates;
    let mut names = Vec::new();
    while !matches!(step, SyncStep::Return(_)) {
        step = after_sync_step(step, audience, Ok(()));
        names.push(shown(&step));
    }
    assert_eq!(
        names,
        vec![
            "TellChanges { sync_error: None }",
            "TellEvictions",
            "TellCompletion",
            "TellBalance",
            "Return(Ok(()))"
        ]
    );
    // Evictions that the queue does not take are skipped.
    let step = after_sync_step(SyncStep::TellEvictions, audience, failed);
    assert!(matches!(step, SyncStep::TellCompletion));
    let step = after_sync_step(SyncStep::TellCompletion, audience, failed);
    assert!(matches!(step, SyncStep::Return(Err(Error::TxSyncFailed))));

    let alone = SyncAudience { has_event_queue: false, knows_channels: false };
    let step = after_sync_step(SyncStep::FetchUpdates, alone, Ok(()));
    assert!(matches!(step, SyncStep::Return(Ok(()))));
    let completed = Event::SyncCompleted {
        sync_type: SyncType::OnchainWallet,
        synced_block_height: 7,
    };
    assert_eq!(shown(sync_completed(7)), shown(completed));
}

#[test]
fn intervals_are_at_least_ten_seconds() {
    let intervals = sync_intervals(&background(1, 10, 600), true);
    assert_eq!(
        (intervals.onchain_wallet_secs, intervals.lightning_wallet_secs),
        (10, 10)
    );
    assert_eq!(intervals.fee_rate_cache_secs, 600);
    assert!(intervals.skip_first_fee_rate_update);
    match tx_based_sync_loop_step(LoopEvent::ConfigChanged(background(20, 0, 9))) {
        LoopAction::SetIntervals(intervals) => {
            assert_eq!(intervals.onchain_wallet_secs, 20);
            assert_eq!((intervals.lightning_wallet_secs, intervals.fee_rate_cache_secs), (10, 10));
            assert!(!intervals.skip_first_fee_rate_update);
        }
        other => panic!("{:?}", other),
    }
    assert_eq!(tx_based_sync_loop_step(LoopEvent::Stop), LoopAction::Return);
    assert_eq!(
        tx_based_sync_loop_step(LoopEvent::OnchainWalletTick),
        LoopAction::SyncOnchainWallet
    );
    assert_eq!(tx_based_sync_loop_step(LoopEvent::FeeRateTick), LoopAction::UpdateFeeRates);
    assert_eq!(
        tx_based_sync_loop_step(LoopEvent::LightningWalletTick),
        LoopAction::SyncLightningWallet
    );
}

#[test]
fn what_a_sync_leaves_in_the_metrics() {
    let mut metrics = NodeMetrics::new();
    assert!(periodically_archive_fully_resolved_monitors(&mut metrics, 100));
    assert_eq!(metrics.latest_channel_monitor_archival_height, Some(100));
    assert!(!periodically_archive_fully_resolved_monitors(&mut metrics, 105));
    assert!(periodically_archive_fully_resolved_monitors(&mut metrics, 106));
    assert_eq!(metrics.latest_channel_monitor_archival_height, Some(106));

    assert!(!finish_lightning_sync(&mut metrics, Err(Error::TxSyncFailed), Some(5)));
    assert_eq!(metrics.latest_lightning_wallet_sync_timestamp, None);
    assert!(finish_lightning_sync(&mut metrics, Ok(()), Some(5)));
    assert_eq!(metrics.latest_lightning_wallet_sync_timestamp, Some(5));
    assert!(!finish_fee_rate_update(&mut metrics, false, Some(6)));
    assert!(finish_fee_rate_update(&mut metrics, true, Some(6)));
    assert_eq!(metrics.latest_fee_rate_cache_update_timestamp, Some(6));
}

// An Esplora server.

#[test]
fn the_first_sync_is_a_full_scan() {
    let mut metrics = NodeMetrics::new();
    let request = onchain_wallet_request(&metrics);
    assert_eq!(request.full_scan_stop_gap, Some(20));
    assert_eq!((request.parallel_requests, request.timeout_secs), (4, 20));
    let failed = finish_onchain_sync(TaskEnd::TimedOut, Some(1), &mut metrics);
    assert_eq!(failed, Err(Error::WalletOperationTimeout));
    let failed = finish_onchain_sync(TaskEnd::Failed, Some(1), &mut metrics);
    assert_eq!(failed, Err(Error::WalletOperationFailed));
    let failed = Err(Error::PersistenceFailed);
    assert_eq!(finish_onchain_sync(TaskEnd::Finished(failed), Some(1), &mut metrics), failed);
    assert_eq!(metrics.latest_onchain_wallet_sync_timestamp, None);
    assert_eq!(finish_onchain_sync(TaskEnd::Finished(Ok(())), Some(1), &mut metrics), Ok(()));
    assert_eq!(onchain_wallet_request(&metrics).full_scan_stop_gap, None);

    assert_eq!(lightning_sync_result(TaskEnd::TimedOut), Err(Error::TxSyncTimeout));
    assert_eq!(lightning_sync_result(TaskEnd::NotJoined), Err(Error::TxSyncFailed));
    assert_eq!(lightning_sync_result(TaskEnd::Finished(Ok(()))), Ok(()));
}

#[test]
fn bad_requests_are_taken_for_known_transactions() {
    assert_eq!(broadcast_notice(BroadcastEnd::Sent), BroadcastNotice::Sent);
    assert_eq!(broadcast_notice(BroadcastEnd::HttpStatus(400)), BroadcastNotice::Refused);
    assert_eq!(broadcast_notice(BroadcastEnd::HttpStatus(500)), BroadcastNotice::Failed);
    assert_eq!(broadcast_notice(BroadcastEnd::TimedOut), BroadcastNotice::Failed);
}

fn targets() -> Vec<ConfirmationTarget> {
    vec![
        ConfirmationTarget::OnchainPayment,
        ConfirmationTarget::Lightning(LdkConfirmationTarget::AnchorChannelFee),
    ]
}

fn estimate(target: ConfirmationTarget) -> u64 {
    match target {
        ConfirmationTarget::OnchainPayment => 1000,
        _ => 2000,
    }
}

fn plus_one(_target: ConfirmationTarget, rate: u64) -> u64 {
    rate + 1
}

#[test]
fn fee_rates_are_adjusted_to_their_targets() {
    let targets = targets();
    let rates = rates_for(&targets, &estimate);
    assert_eq!(rates, vec![1000, 2000]);
    let cache = fee_rate_cache(&targets, &rates, &plus_one);
    assert_eq!(cache.get(&targets[1]), Some(&2001));
    assert_eq!(fee_rate_cache(&targets, &vec![7], &plus_one).len(), 1);

    let received = EstimatesReply::Received { is_empty: false };
    let bitcoin = Network::Bitcoin;
    let cache =
        esplora::update_fee_rate_estimates(bitcoin, received, &targets, &estimate, &plus_one);
    assert_eq!(cache.ok().unwrap().get(&targets[0]), Some(&1001));
    let empty = EstimatesReply::Received { is_empty: true };
    let cache =
        esplora::update_fee_rate_estimates(bitcoin, empty, &targets, &estimate, &plus_one);
    assert!(matches!(cache, Err(Error::FeerateEstimationUpdateFailed)));
    let cache = fee_rate_cache_from_esplora(
        Network::Signet,
        empty,
        &targets,
        &estimate,
        &plus_one,
    );
    assert!(cache.is_ok());
    let late = EstimatesReply::TimedOut;
    let cache = fee_rate_cache_from_esplora(bitcoin, late, &targets, &estimate, &plus_one);
    assert!(matches!(cache, Err(Error::FeerateEstimationUpdateTimeout)));

    let estimates = TaskEnd::Finished(vec![5, 6]);
    let cache = fee_rate_cache_from_electrum(bitcoin, &targets, estimates, &plus_one);
    assert_eq!(cache.ok().unwrap().get(&targets[1]), Some(&7));
    let cache = fee_rate_cache_from_kyoto(Some(9), &targets, &plus_one);
    assert_eq!(cache.ok().unwrap().get(&targets[1]), Some(&10));
    assert!(fee_rate_cache_from_kyoto(None, &targets, &plus_one).is_err());

    let connected = || TaskEnd::Finished(());
    let electrum = cbf::electrum_fee_rate_cache(
        bitcoin,
        connected(),
        &targets,
        TaskEnd::Finished(vec![5, 6]),
        &plus_one,
    );
    assert!(electrum.is_ok());
    let unconnected = cbf::electrum_fee_rate_cache(
        bitcoin,
        TaskEnd::Failed,
        &targets,
        TaskEnd::Finished(vec![5, 6]),
        &plus_one,
    );
    assert!(matches!(unconnected, Err(Error::ConnectionFailed)));
    let late = cbf::electrum_fee_rate_cache(
        bitcoin,
        connected(),
        &targets,
        TaskEnd::TimedOut,
        &plus_one,
    );
    assert!(matches!(late, Err(Error::FeerateEstimationUpdateTimeout)));
}

// Compact block filters.

#[test]
fn a_tip_is_published_when_its_blocks_are_applied() {
    let mut status = CbfRuntimeStatus::Stopped;
    let mut applicator = cbf::start(&mut status, 100, true).unwrap();
    assert!(cbf::start(&mut status, 100, true).is_none());
    assert_eq!(
        applicator.apply(ChainOp::Synced { tip_height: 102 }),
        ApplyAction::AwaitBlocks
    );
    assert_eq!(
        applicator.apply(ChainOp::ConnectFull { height: 101, block_hash: hash(1) }),
        ApplyAction::ConnectFull { note_fee_rate: true }
    );
    assert_eq!(
        applicator.apply(ChainOp::ConnectFull { height: 101, block_hash: hash(1) }),
        ApplyAction::SkipBlock
    );
    assert_eq!(
        applicator.apply(ChainOp::ConnectFiltered { height: 103 }),
        ApplyAction::SkipBlock
    );
    assert_eq!(
        applicator.apply(ChainOp::ConnectFiltered { height: 102 }),
        ApplyAction::ConnectFiltered
    );
    assert_eq!(cbf::wait_until_synced(status, applicator.sync_state), None);
    assert_eq!(
        applicator.apply(ChainOp::Synced { tip_height: 102 }),
        ApplyAction::PublishTip { write_metrics: true }
    );
    assert_eq!(
        applicator.apply(ChainOp::Synced { tip_height: 102 }),
        ApplyAction::PublishTip { write_metrics: false }
    );
    assert_eq!(cbf::wait_until_synced(status, applicator.sync_state), Some(Ok(())));

    // A replaced block puts an end to being synced.
    let fork_point = best_block(4, 100);
    assert_eq!(applicator.apply(ChainOp::Disconnect { fork_point }), ApplyAction::Disconnect);
    assert_eq!(applicator.next_height, 101);
    assert_eq!(after_state_change(applicator.sync_state), None);
    let error = Error::TxSyncFailed;
    assert_eq!(applicator.apply(ChainOp::Failed { error }), ApplyAction::PublishFailure);
    assert_eq!(after_state_change(applicator.sync_state), Some(Err(error)));

    let mut state = applicator.sync_state;
    assert!(cbf::stop(&mut status, &mut state));
    assert!(!cbf::stop(&mut status, &mut state));
    assert_eq!(cbf::wait_until_synced(status, state), Some(Err(Error::NotRunning)));
    assert!(BlockApplicator::new(5, false).publish_synced_tip(6));
}

#[test]
fn a_failed_node_is_restarted_five_times() {
    let mut restart = RestartState::new();
    let mut status = CbfRuntimeStatus::Started;
    let mut state = CbfSyncState::Active { applied_tip: None, synced_to_tip: false };
    let mut pauses = Vec::new();
    while let RestartAction::RestartAfter { pause_ms } =
        restart.after_run(true, &mut status, &mut state)
    {
        pauses.push(pause_ms);
        assert!(after_rebuild(&mut status, &mut state, 7));
    }
    assert_eq!(pauses, vec![500, 1000, 2000, 4000, 8000]);
    assert_eq!(status, CbfRuntimeStatus::Stopped);
    assert_eq!(state, CbfSyncState::Failed(Error::TxSyncFailed));
    assert!(!after_rebuild(&mut status, &mut state, 7));
    assert_eq!(state, CbfSyncState::Failed(Error::NotRunning));

    let mut restart = RestartState::new();
    let mut status = CbfRuntimeStatus::Started;
    assert!(
        matches!(restart.after_run(false, &mut status, &mut state), RestartAction::End)
    );
    assert_eq!(status, CbfRuntimeStatus::Stopped);
}

#[test]
fn filters_lead_to_blocks_or_headers() {
    let mut state = CbfSyncState::Active { applied_tip: Some(9), synced_to_tip: true };
    let filter = CbfEvent::IndexedFilter { block_hash: hash(1), height: 10 };
    let started = CbfRuntimeStatus::Started;
    assert_eq!(
        shown(cbf::on_event(filter, started, &mut state)),
        shown(EventStep::MatchFilter { block_hash: hash(1), height: 10 })
    );
    assert_eq!(state, CbfSyncState::Active { applied_tip: Some(9), synced_to_tip: false });
    assert!(!mark_syncing(&mut state));
    assert_eq!(
        shown(cbf::on_event(filter, CbfRuntimeStatus::Stopped, &mut state)),
        shown(EventStep::FailAndEnd(Error::NotRunning))
    );
    let reorganized = CbfEvent::Reorganized { lowest: Some((hash(2), 8)) };
    let fork_point = best_block(2, 7);
    assert_eq!(
        shown(cbf::on_event(reorganized, started, &mut state)),
        shown(EventStep::Apply(ChainOp::Disconnect { fork_point }))
    );
    assert_eq!(
        shown(cbf::on_event(CbfEvent::FiltersSynced { tip_height: 3 }, started, &mut state)),
        shown(EventStep::Apply(ChainOp::Synced { tip_height: 3 }))
    );
    for event in [
        CbfEvent::HeaderConnected,
        CbfEvent::ForkAdded,
        CbfEvent::Reorganized { lowest: None },
    ] {
        assert!(matches!(cbf::on_event(event, started, &mut state), EventStep::AwaitEvent));
    }

    let mut step = after_match(hash(1), 10, true);
    for expected in [1u8, 2, 3] {
        match step {
            EventStep::FetchBlock { block_hash, height, attempt } => {
                assert_eq!(attempt, expected);
                step = after_block_fetch(block_hash, height, attempt, BlockFetch::Failed);
            }
            other => panic!("{:?}", other),
        }
    }
    assert!(matches!(step, EventStep::FailAndEnd(Error::TxSyncFailed)));
    let fetched = after_block_fetch(hash(1), 10, 1, BlockFetch::Fetched { height: 10 });
    assert_eq!(
        shown(fetched),
        shown(EventStep::Apply(ChainOp::ConnectFull { height: 10, block_hash: hash(1) }))
    );
    let ended = after_block_fetch(hash(1), 10, 1, BlockFetch::NotRunning);
    assert!(matches!(ended, EventStep::FailAndEnd(Error::NotRunning)));

    assert!(matches!(after_match(hash(1), 10, false), EventStep::FetchHeader { .. }));
    let found = |id: u8| HeaderFetch::Found { block_hash: hash(id), height: 10 };
    assert_eq!(
        shown(after_header_fetch(hash(1), found(1))),
        shown(EventStep::Apply(ChainOp::ConnectFiltered { height: 10 }))
    );
    assert!(matches!(after_header_fetch(hash(1), found(2)), EventStep::AwaitEvent));
    assert!(matches!(
        after_header_fetch(hash(1), HeaderFetch::Missing),
        EventStep::FailAndEnd(Error::TxSyncFailed)
    ));
}

#[test]
fn fee_rates_come_from_recent_blocks() {
    assert_eq!(window_start(5), 0);
    assert_eq!(window_start(13), 0);
    assert_eq!(window_start(14), 1);
    assert_eq!(window_start(100), 87);

    let mut cache = BlockFeeCache::new();
    cache.note(10, hash(1), 300);
    cache.note(11, hash(2), 400);
    let mut window = FeeWindow::new();
    assert!(matches!(cache.window_step(&mut window, 10, Some(hash(1))), WindowStep::Done));
    // The block at this height was replaced.
    match cache.window_step(&mut window, 11, Some(hash(3))) {
        WindowStep::FetchRate(block_hash) => window.note(11, block_hash, Some(200)),
        WindowStep::Done => panic!("a rate of another block"),
    }
    assert!(matches!(cache.window_step(&mut window, 12, None), WindowStep::Done));
    window.note(13, hash(5), None);
    assert_eq!(cache.replace(window), vec![300, 200]);
    assert_eq!(cache.rates.len(), 2);

    let targets = targets();
    let lowest = |samples: &Vec<u64>, _target: ConfirmationTarget| samples[0];
    let started = CbfRuntimeStatus::Started;
    let rates = native_fee_rate_cache(
        started,
        &vec![300, 200],
        &targets,
        &estimate,
        &lowest,
        &plus_one,
    );
    assert_eq!(rates.ok().unwrap().get(&targets[0]), Some(&251));
    let rates = native_fee_rate_cache(
        started,
        &vec![300, 280],
        &targets,
        &estimate,
        &lowest,
        &plus_one,
    );
    assert_eq!(rates.ok().unwrap().get(&targets[0]), Some(&281));
    let rates =
        native_fee_rate_cache(started, &vec![], &targets, &estimate, &lowest, &plus_one);
    assert_eq!(rates.ok().unwrap().get(&targets[1]), Some(&2001));
    let stopped = CbfRuntimeStatus::Stopped;
    let rates =
        native_fee_rate_cache(stopped, &vec![], &targets, &estimate, &lowest, &plus_one);
    assert!(matches!(rates, Err(Error::FeerateEstimationUpdateFailed)));
    assert_eq!(sorted(&vec![3, 1, 2, 1]), vec![1, 1, 2, 3]);
}

#[test]
fn the_node_resumes_below_the_lowest_best_block() {
    let checkpoints = vec![best_block(9, 100), best_block(8, 95), best_block(7, 90)];
    let resume = resume_checkpoint(best_block(1, 100), &checkpoints);
    assert_eq!(shown(resume), shown(Some(best_block(7, 90))));
    let resume = resume_checkpoint(best_block(1, 102), &checkpoints);
    assert_eq!(shown(resume), shown(Some(best_block(8, 95))));
    let genesis = vec![best_block(9, 3), best_block(0, 0)];
    assert!(resume_checkpoint(best_block(1, 5), &genesis).is_none());
}

fn spending(txid: bitcoin::Txid, vout: u32) -> bitcoin::Transaction {
    bitcoin::Transaction {
        version: bitcoin::transaction::Version::TWO,
        lock_time: bitcoin::absolute::LockTime::ZERO,
        input: vec![bitcoin::TxIn {
            previous_output: bitcoin::OutPoint { txid, vout },
            ..bitcoin::TxIn::default()
        }],
        output: vec![bitcoin::TxOut {
            value: bitcoin::Amount::from_sat(1000),
            script_pubkey: bitcoin::ScriptBuf::from_bytes(vec![0x51, 0x52]),
        }],
    }
}

fn transaction(tx: &bitcoin::Transaction) -> Transaction {
    Transaction::from_bytes(bitcoin::consensus::serialize(tx)).unwrap()
}

#[test]
fn related_transactions_are_broadcast_together() {
    let parent = spending(bitcoin::hashes::Hash::all_zeros(), 7);
    let child = spending(parent.compute_txid(), 0);
    let other = spending(parent.compute_txid(), 1);
    let started = CbfRuntimeStatus::Started;
    let submission = |txs: &[&bitcoin::Transaction]| {
        let package: Vec<Transaction> = txs.iter().map(|tx| transaction(tx)).collect();
        cbf::process_broadcast_package(started, &package)
    };
    assert_eq!(submission(&[&parent]), PackageSubmission::Together);
    assert_eq!(submission(&[&parent, &child]), PackageSubmission::Together);
    assert_eq!(submission(&[&child, &parent]), PackageSubmission::OneByOne);
    assert_eq!(submission(&[&parent, &other]), PackageSubmission::OneByOne);
    assert_eq!(submission(&[&parent, &child, &other]), PackageSubmission::OneByOne);
    assert_eq!(submission(&[]), PackageSubmission::OneByOne);
    let stopped = CbfRuntimeStatus::Stopped;
    assert_eq!(
        cbf::process_broadcast_package(stopped, &vec![transaction(&parent)]),
        PackageSubmission::Nothing
    );
    assert_eq!(cbf::submission_of(started, true), PackageSubmission::Together);
    assert_eq!(cbf::submission_of(started, false), PackageSubmission::OneByOne);
    assert_eq!(cbf::submission_of(stopped, true), PackageSubmission::Nothing);
}

fn filter_of_block(height: u32) -> (BlockFilter, Vec<u8>) {
    let mut block = bitcoin::constants::genesis_block(bitcoin::Network::Regtest);
    block.txdata.push(spending(block.txdata[0].compute_txid(), 0));
    let script = block.txdata[0].output[0].script_pubkey.clone();
    let filter = bitcoin::bip158::BlockFilter::new_script_filter(
        &block,
        |_outpoint| Ok::<_, bitcoin::bip158::Error>(script.clone()),
    )
    .unwrap();
    let block_hash = BlockHash(*AsRef::<[u8; 32]>::as_ref(&block.block_hash()));
    let filter = BlockFilter { block_hash, height, contents: filter.content };
    (filter, block.txdata[1].output[0].script_pubkey.to_bytes())
}

#[test]
fn filters_match_the_scripts_of_their_block() {
    let (filter, script) = filter_of_block(10);
    assert_eq!(filter.contains_any(&vec![script.clone()]), Some(true));
    assert_eq!(filter.contains_any(&vec![vec![0x6a], script.clone()]), Some(true));
    assert_eq!(filter.contains_any(&vec![vec![0x51, 0x53]]), Some(false));
    assert_eq!(filter.contains_any(&vec![]), Some(false));

    // The hash of the block counts.
    let other = BlockFilter { block_hash: hash(1), height: 10, contents: filter.contents.clone() };
    assert_eq!(other.contains_any(&vec![script.clone()]), Some(false));
    // Contents that end too early, or that begin with too large a number.
    let cut = BlockFilter { block_hash: hash(1), height: 10, contents: vec![9] };
    assert_eq!(cut.contains_any(&vec![script.clone()]), None);
    let huge = BlockFilter { block_hash: hash(1), height: 10, contents: vec![0xff; 9] };
    assert_eq!(huge.contains_any(&vec![script.clone()]), None);
    // A number that cannot be read, or that is written longer than need be, counts as zero.
    for contents in [vec![], vec![0xff], vec![0xff; 8], vec![0xff, 1, 0, 0, 0, 0, 0, 0, 0, 0x80]] {
        let unreadable = BlockFilter { block_hash: hash(1), height: 10, contents };
        assert_eq!(unreadable.contains_any(&vec![script.clone()]), Some(false));
    }
    // A number of more than 32 bits is searched where its product fits: these contents end too early.
    let largest: u64 = u64::MAX / 784931;
    for (count, without_scripts) in [(1u64 << 32, Some(false)), (largest, Some(false)), (largest + 1, None)]
    {
        let mut contents = vec![0xff];
        contents.extend_from_slice(&count.to_le_bytes());
        let long = BlockFilter { block_hash: hash(1), height: 10, contents };
        assert_eq!(long.contains_any(&vec![script.clone()]), None);
        assert_eq!(long.contains_any(&vec![]), without_scripts);
    }

    let mut registered = ScriptSet::new();
    registered.register(vec![0x51, 0x53]);
    let block_hash = filter.block_hash;
    assert_eq!(
        shown(cbf::match_filter(&filter, &registered, vec![script.clone()])),
        shown(Some(EventStep::FetchBlock { block_hash, height: 10, attempt: 1 }))
    );
    assert_eq!(
        shown(cbf::match_filter(&filter, &registered, vec![])),
        shown(Some(EventStep::FetchHeader { block_hash, height: 10 }))
    );
    registered.register(script);
    assert_eq!(
        shown(cbf::match_filter(&filter, &registered, vec![])),
        shown(Some(EventStep::FetchBlock { block_hash, height: 10, attempt: 1 }))
    );
    assert!(cbf::match_filter(&cut, &registered, vec![]).is_none());
}

#[test]
fn scripts_are_registered_once() {
    let mut scripts = ScriptSet::new();
    scripts.register(vec![1]);
    scripts.register(vec![2]);
    scripts.register(vec![1]);
    assert!(scripts.contains(&vec![2]) && !scripts.contains(&vec![3]));
    assert_eq!(scripts.with_watched(vec![vec![9]]), vec![vec![9], vec![1], vec![2]]);
}

// The kyoto node.

fn indexed_header(id: u8, height: u32) -> IndexedHeader {
    IndexedHeader {
        height,
        block_hash: hash(id),
        prev_blockhash: hash(id - 1),
        header: [id; 80],
    }
}

#[test]
fn headers_are_kept_until_their_filter_comes() {
    let mut state = KyotoState::new();
    assert!(state.start().is_none());
    let action = state.on_event(KyotoEvent::Connected(indexed_header(5, 50)), 49);
    assert_eq!(action.apply_headers.len(), 1);
    assert_eq!(action.apply_headers[0].block_hash, hash(5));
    let filter = |has_match: bool| KyotoEvent::IndexedFilter {
        block_hash: hash(5),
        height: 50,
        has_match,
    };
    match state.on_event(filter(false), 49).block {
        BlockAction::ConnectFiltered { header, height } => {
            assert_eq!((header.block_hash, height), (hash(5), 50));
        }
        _ => panic!("the block has to be connected"),
    }
    assert_eq!(state.header_cache.len(), 0);
    assert!(matches!(state.on_event(filter(true), 49).block, BlockAction::Nothing));

    state.on_event(KyotoEvent::Connected(indexed_header(5, 50)), 49);
    assert!(matches!(
        state.on_event(filter(true), 49).block,
        BlockAction::FetchAndConnect { height: 50, .. }
    ));
    state.on_event(KyotoEvent::Connected(indexed_header(5, 50)), 49);
    assert!(matches!(state.on_event(filter(true), 50).block, BlockAction::Nothing));

    state.on_event(KyotoEvent::Connected(indexed_header(6, 51)), 50);
    let reorganized = KyotoEvent::Reorganized {
        accepted: vec![indexed_header(8, 51), indexed_header(9, 52)],
        reorganized: vec![indexed_header(6, 51)],
    };
    let action = state.on_event(reorganized, 50);
    assert_eq!(shown(action.disconnect), shown(Some(best_block(5, 50))));
    assert_eq!(action.apply_headers.len(), 2);
    assert_eq!(state.header_cache.len(), 2);

    let tip = best_block(9, 52);
    let action = state.on_event(KyotoEvent::FiltersSynced { tip }, 50);
    assert_eq!(shown(action.publish), shown(Some(tip)));
    assert_eq!(fee_rate_block(&state), Ok(Some(hash(9))));
    assert!(is_synced_to(state.synced_checkpoint, 52));
    assert!(!is_synced_to(state.synced_checkpoint, 53) && !is_synced_to(None, 0));

    let plan = state.start().unwrap();
    assert_eq!(shown(plan.checkpoint), shown(Some(tip)));
    assert_eq!(state.header_cache.len(), 0);
    assert_eq!(fee_rate_block(&state), Ok(None));
}

#[test]
fn filters_are_matched_where_their_header_is_kept() {
    let (filter, script) = filter_of_block(50);
    let mut scripts = ScriptSet::new();
    scripts.register(script);
    let header = IndexedHeader {
        height: 50,
        block_hash: filter.block_hash,
        prev_blockhash: hash(1),
        header: [0; 80],
    };
    let mut state = KyotoState::new();
    assert!(matches!(state.on_filter(&filter, &scripts, 49), Some(BlockAction::Nothing)));
    state.on_event(KyotoEvent::Connected(header), 49);
    assert!(matches!(
        state.on_filter(&filter, &scripts, 49),
        Some(BlockAction::FetchAndConnect { height: 50, .. })
    ));
    assert_eq!(state.header_cache.len(), 0);
    state.on_event(KyotoEvent::Connected(header), 49);
    assert!(matches!(
        state.on_filter(&filter, &ScriptSet::new(), 49),
        Some(BlockAction::ConnectFiltered { height: 50, .. })
    ));
    state.on_event(KyotoEvent::Connected(header), 49);
    assert!(matches!(state.on_filter(&filter, &scripts, 50), Some(BlockAction::Nothing)));
    assert_eq!(state.header_cache.len(), 0);

    state.on_event(KyotoEvent::Connected(header), 49);
    let cut = BlockFilter { block_hash: filter.block_hash, height: 50, contents: vec![9] };
    assert!(state.on_filter(&cut, &scripts, 49).is_none());
    assert_eq!(state.header_cache.len(), 1);
}

#[test]
fn waiting_for_the_kyoto_node() {
    assert_eq!(connection_result(ConnectionWait::ConnectionsMet), Ok(()));
    assert_eq!(connection_result(ConnectionWait::NodeEnded), Err(Error::ConnectionFailed));
    assert_eq!(connection_result(ConnectionWait::TimedOut), Err(Error::ConnectionFailed));
    assert_eq!(kyoto::wait_until_synced(true, true, true), Ok(()));
    for (requester, known, reached) in
        [(false, true, true), (true, false, true), (true, true, false)]
    {
        assert_eq!(
            kyoto::wait_until_synced(requester, known, reached),
            Err(Error::WalletOperationFailed)
        );
    }
    let mut state = KyotoState::new();
    state.has_requester = false;
    state.synced_checkpoint = Some(best_block(1, 1));
    assert_eq!(fee_rate_block(&state), Err(Error::FeerateEstimationUpdateFailed));
    state.synced_checkpoint = Some(best_block(1, 0));
    assert_eq!(fee_rate_block(&state), Ok(None));
}
