use ldk_node::chain::electrum::{
    additional_wallet_full_scan_settings, additional_wallet_full_scan_timeout,
    additional_wallet_incremental_batch_size, client_for_lightning_sync, client_for_onchain_sync,
    derived_wallet_incremental_sync_timeout, effective_connection_timeout_secs,
    get_address_balance, get_fee_rate_cache_update, primary_wallet_full_scan_settings,
    sync_confirmables, sync_tasks, wallet_update, ElectrumRuntimeStatus, FullScanSettings,
    Registration, SyncProgress, WatchedOutput,
};
use ldk_node::chain::fees::ConfirmationTarget;
use ldk_node::chain::status::TaskEnd;
use ldk_node::chain::sync::WalletSyncRequest;
use ldk_node::config::{
    AddressType, ElectrumSyncConfig, OnchainWalletAccount,
    DEFAULT_ELECTRUM_CONNECTION_TIMEOUT_SECS,
};
use ldk_node::error::Error;
use ldk_node::types::{Network, OutPoint, Txid};

#[test]
fn additional_full_scan_settings_do_not_change_primary_defaults() {
    let default_config = ElectrumSyncConfig::default();
    let config = ElectrumSyncConfig {
        additional_wallet_full_scan_batch_size: 100,
        additional_wallet_full_scan_stop_gap: 1_000,
        ..Default::default()
    };

    assert_eq!(
        primary_wallet_full_scan_settings(),
        FullScanSettings { stop_gap: 20, batch_size: 5 }
    );
    assert_eq!(
        additional_wallet_full_scan_settings(&default_config),
        primary_wallet_full_scan_settings()
    );
    assert_eq!(
        additional_wallet_full_scan_settings(&config),
        FullScanSettings { stop_gap: 1_000, batch_size: 100 }
    );
}

#[test]
fn electrum_connection_timeout_is_always_finite_and_bounded() {
    assert_eq!(
        effective_connection_timeout_secs(0),
        DEFAULT_ELECTRUM_CONNECTION_TIMEOUT_SECS as u8
    );
    assert_eq!(effective_connection_timeout_secs(1), 1);
    assert_eq!(effective_connection_timeout_secs(300), u8::MAX);
}

#[test]
fn additional_full_scan_settings_are_never_zero() {
    let config = ElectrumSyncConfig {
        additional_wallet_full_scan_batch_size: 0,
        additional_wallet_full_scan_stop_gap: 0,
        ..Default::default()
    };

    assert_eq!(
        additional_wallet_full_scan_settings(&config),
        FullScanSettings { stop_gap: 1, batch_size: 1 }
    );
}

#[test]
fn additional_full_scan_timeout_scales_with_request_batches() {
    assert_eq!(
        additional_wallet_full_scan_timeout(FullScanSettings { stop_gap: 20, batch_size: 5 }, 2),
        28
    );
    assert_eq!(
        additional_wallet_full_scan_timeout(
            FullScanSettings { stop_gap: 1_000, batch_size: 100 },
            2,
        ),
        40
    );
}

#[test]
fn derived_incremental_sync_uses_the_configured_batch_size() {
    let settings = FullScanSettings { stop_gap: 1_000, batch_size: 100 };

    assert_eq!(additional_wallet_incremental_batch_size(0, settings), 5);
    assert_eq!(additional_wallet_incremental_batch_size(1, settings), 100);
}

#[test]
fn derived_incremental_timeout_scales_with_request_batches() {
    let settings = FullScanSettings { stop_gap: 1_000, batch_size: 100 };
    let progress = SyncProgress {
        spks_consumed: 0,
        spks_remaining: 2_000,
        txids_consumed: 0,
        txids_remaining: 0,
        outpoints_consumed: 0,
        outpoints_remaining: 0,
    };

    assert_eq!(derived_wallet_incremental_sync_timeout(progress, settings.batch_size), 40);
}

#[test]
fn registrations_are_kept_until_the_client_starts() {
    let output = || WatchedOutput {
        block_hash: None,
        outpoint: OutPoint { txid: Txid([2; 32]), vout: 3 },
        script_pubkey: vec![0x51],
    };
    let mut status: ElectrumRuntimeStatus<&str> = ElectrumRuntimeStatus::new();
    assert!(matches!(status.register_tx(Txid([1; 32]), vec![0x52]), Registration::Kept));
    assert!(matches!(status.register_output(output()), Registration::Kept));
    let failed = status.start(Err(Error::ConnectionFailed));
    assert_eq!(failed.err(), Some(Error::ConnectionFailed));
    assert!(status.client().is_none());
    let unavailable = Error::FeerateEstimationUpdateFailed;
    assert_eq!(client_for_onchain_sync(&status), Err(unavailable));
    assert_eq!(client_for_lightning_sync(&status), Err(Error::TxSyncFailed));

    let pending = status.start(Ok("client")).ok().unwrap();
    assert_eq!((pending.txs.len(), pending.outputs.len()), (1, 1));
    assert_eq!(pending.txs[0], (Txid([1; 32]), vec![0x52]));
    assert_eq!(status.client(), Some(&"client"));
    assert_eq!(client_for_onchain_sync(&status), Ok(&"client"));
    assert_eq!(client_for_lightning_sync(&status), Ok(&"client"));
    assert!(matches!(
        status.register_tx(Txid([1; 32]), vec![0x52]),
        Registration::HandToClient((txid, _)) if txid == Txid([1; 32])
    ));
    assert!(matches!(status.register_output(output()), Registration::HandToClient(_)));
    status.stop();
    assert!(status.start(Ok("other")).ok().unwrap().txs.is_empty());
}

#[test]
fn every_wallet_is_synced_by_a_task_of_its_own() {
    let account = |account_index: u32| OnchainWalletAccount {
        address_type: AddressType::Taproot,
        account_index,
    };
    let progress = SyncProgress {
        spks_consumed: 0,
        spks_remaining: 0,
        txids_consumed: 0,
        txids_remaining: 0,
        outpoints_consumed: 0,
        outpoints_remaining: 0,
    };
    let requests = vec![
        (account(0), WalletSyncRequest::Incremental(progress)),
        (account(1), WalletSyncRequest::Incremental(progress)),
        (account(2), WalletSyncRequest::FullScan(2)),
    ];
    let config = ElectrumSyncConfig {
        additional_wallet_full_scan_stop_gap: 100,
        additional_wallet_full_scan_batch_size: 25,
        ..ElectrumSyncConfig::default()
    };
    let tasks = sync_tasks(false, &requests, &config);
    assert_eq!(tasks.len(), 4);
    let primary = primary_wallet_full_scan_settings();
    assert_eq!(tasks[0].account, None);
    assert_eq!(tasks[0].full_scan_stop_gap, Some(primary.stop_gap));
    assert_eq!(tasks[0].batch_size, primary.batch_size);
    assert_eq!((tasks[1].account, tasks[1].full_scan_stop_gap), (Some(account(0)), None));
    assert_eq!(tasks[1].batch_size, primary.batch_size);
    assert_eq!((tasks[2].full_scan_stop_gap, tasks[2].batch_size), (None, 25));
    assert_eq!((tasks[3].full_scan_stop_gap, tasks[3].batch_size), (Some(100), 25));
    let settings = additional_wallet_full_scan_settings(&config);
    assert_eq!(tasks[3].timeout_secs, additional_wallet_full_scan_timeout(settings, 2));
    assert_eq!(sync_tasks(true, &requests, &config)[0].full_scan_stop_gap, None);
}

#[test]
fn tasks_that_do_not_end_well() {
    assert_eq!(wallet_update(TaskEnd::Finished(3)), Ok(3));
    assert_eq!(wallet_update(TaskEnd::<u8>::TimedOut), Err(Error::WalletOperationTimeout));
    assert_eq!(wallet_update(TaskEnd::<u8>::NotJoined), Err(Error::WalletOperationFailed));
    assert_eq!(wallet_update(TaskEnd::<u8>::Failed), Err(Error::WalletOperationFailed));
    assert_eq!(sync_confirmables(TaskEnd::Finished(())), Ok(()));
    assert_eq!(sync_confirmables(TaskEnd::TimedOut), Err(Error::TxSyncTimeout));
    assert_eq!(sync_confirmables(TaskEnd::Failed), Err(Error::TxSyncFailed));

    assert_eq!(get_address_balance(Some((5, 3))), Some(8));
    assert_eq!(get_address_balance(Some((5, -3))), Some(5));
    assert_eq!(get_address_balance(None), None);
}

#[test]
fn missing_estimates_are_fatal_on_the_main_network_only() {
    let targets = vec![ConfirmationTarget::OnchainPayment, ConfirmationTarget::ChannelFunding];
    let adjust = |_target: ConfirmationTarget, rate: u64| rate * 2;
    let update = |network: Network, estimates: TaskEnd<Vec<u64>>| {
        get_fee_rate_cache_update(network, &targets, estimates, &adjust)
    };
    let cache = update(Network::Bitcoin, TaskEnd::Finished(vec![5, 6])).ok().unwrap();
    assert_eq!(cache.get(&targets[1]), Some(&12));
    let refused = update(Network::Bitcoin, TaskEnd::Finished(vec![5]));
    assert!(matches!(refused, Err(Error::FeerateEstimationUpdateFailed)));
    let cache = update(Network::Signet, TaskEnd::Finished(vec![5])).ok().unwrap();
    assert_eq!((cache.len(), cache.get(&targets[0])), (1, Some(&10)));
    let late = update(Network::Signet, TaskEnd::TimedOut);
    assert!(matches!(late, Err(Error::FeerateEstimationUpdateTimeout)));
}
