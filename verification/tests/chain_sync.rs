use bdk_chain::spk_client::SyncRequest;
use bdk_chain::{BlockId, CheckPoint};
use bitcoin::blockdata::constants::genesis_block;
use ldk_node::builder::accounts::{additional_wallets, public_descriptor};
use ldk_node::builder::options::derived_account_lookahead;
use ldk_node::builder::NodeBuilder;
use ldk_node::chain::sync::{
    apply_additional_sync_results, apply_wallet_sync_results, collect_additional_sync_requests,
    collect_fetched, finish_wallet_sync, AccountSync, FetchEnd, PrimarySync, SyncState,
    WalletSyncOutcome, WalletSyncRequest,
};
use ldk_node::config::{AddressType, Config, ElectrumSyncConfig, OnchainWalletAccount};
use ldk_node::error::Error;
use ldk_node::keys::{KeychainKind, Xpriv};
use ldk_node::types::Network;

#[derive(Debug, PartialEq)]
enum TestEvent {
    ChainTipChanged { old_height: u32, new_height: u32 },
}

fn secondary() -> OnchainWalletAccount {
    OnchainWalletAccount { address_type: AddressType::NativeSegwit, account_index: 1 }
}

/// The wallet of an account, with as many scripts derived ahead.
fn wallet(account: OnchainWalletAccount, lookahead: Option<u32>) -> bdk_wallet::Wallet {
    let master = Xpriv::new_master(Network::Regtest, &[42u8; 64]).unwrap();
    let descriptor =
        |kind| public_descriptor(account, &master, Network::Regtest, kind).unwrap();
    let mut create = bdk_wallet::Wallet::create(
        descriptor(KeychainKind::External),
        descriptor(KeychainKind::Internal),
    )
    .network(bitcoin::Network::Regtest);
    if let Some(lookahead) = lookahead {
        create = create.lookahead(lookahead);
    }
    create.create_wallet_no_persist().unwrap()
}

#[test]
fn successful_primary_update_is_applied_when_a_secondary_fetch_fails() {
    let mut primary = wallet(OnchainWalletAccount::account_zero(AddressType::NativeSegwit), None);
    let genesis = genesis_block(bitcoin::Network::Regtest);
    let next_block = BlockId { height: 1, hash: bitcoin::hashes::Hash::from_byte_array([1; 32]) };
    let checkpoint = CheckPoint::new(BlockId { height: 0, hash: genesis.block_hash() })
        .push(next_block)
        .unwrap();
    let primary_update = bdk_wallet::Update { chain: Some(checkpoint), ..Default::default() };
    let old_height = primary.latest_checkpoint().height();
    primary.apply_update(primary_update).unwrap();
    let new_height = primary.latest_checkpoint().height();

    let mut state = SyncState::new();
    let outcome = apply_wallet_sync_results(
        PrimarySync::Applied {
            events: vec![TestEvent::ChainTipChanged { old_height, new_height }],
            at: Some(1_000),
        },
        None,
        None,
        vec![(secondary(), AccountSync::NotFetched(Error::WalletOperationTimeout))],
        &mut state,
    );

    assert!(outcome.primary_applied);
    assert!(outcome.any_applied);
    assert!(matches!(outcome.events.as_slice(), [TestEvent::ChainTipChanged { .. }]));
    assert_eq!(outcome.error, Some(Error::WalletOperationTimeout));
    assert_eq!(primary.latest_checkpoint().height(), 1);
    assert!(state.metrics.latest_onchain_wallet_sync_timestamp.is_some());
}

#[test]
fn wallet_sync_outcome_preserves_events_on_failure() {
    let event = TestEvent::ChainTipChanged { old_height: 0, new_height: 1 };
    let outcome = WalletSyncOutcome::new(vec![event], Some(Error::WalletOperationTimeout));

    assert_eq!(outcome.events.len(), 1);
    assert_eq!(outcome.result(), Err(Error::WalletOperationTimeout));
}

#[test]
fn late_sync_result_for_removed_account_is_ignored() {
    let mut state = SyncState::new();
    let results: Vec<(OnchainWalletAccount, AccountSync<TestEvent>)> =
        vec![(secondary(), AccountSync::Unloaded)];
    let outcome = apply_additional_sync_results(results, &mut state);

    assert!(!outcome.any_applied);
    assert!(outcome.events.is_empty());
    assert_eq!(outcome.error, None);
    assert!(!state.has_synced_derived_account(secondary()));
}

#[test]
fn derived_accounts_switch_to_incremental_sync_after_initial_scan() {
    let mut state = SyncState::new();
    let account = secondary();
    let full = |_: OnchainWalletAccount| -> Result<(), Error> { Ok(()) };
    let incremental = |_: OnchainWalletAccount| -> Result<u32, Error> { Ok(7) };

    let requests =
        collect_additional_sync_requests(&vec![account], &state, &full, &incremental).unwrap();
    assert!(matches!(requests[0].1, WalletSyncRequest::FullScan(())));

    state.mark_derived_account_synced(account);
    let requests =
        collect_additional_sync_requests(&vec![account], &state, &full, &incremental).unwrap();
    assert!(matches!(requests[0].1, WalletSyncRequest::Incremental(7)));
}

#[test]
fn electrum_stop_gap_sets_derived_account_incremental_lookahead() {
    let mut config = Config::default();
    config.network = Network::Regtest;
    let sync_config = ElectrumSyncConfig {
        background_sync_config: None,
        additional_wallet_full_scan_stop_gap: 1_000,
        ..ElectrumSyncConfig::default()
    };
    let mut builder = NodeBuilder::from_config(config);
    builder.set_chain_source_electrum("ssl://127.0.0.1:1".to_string(), Some(sync_config));
    builder.set_entropy_seed_bytes([42u8; 64]);
    builder.set_log_facade_logger();
    let account = secondary();
    let mut state = SyncState::new();
    state.mark_derived_account_synced(account);

    let lookahead = derived_account_lookahead(&builder.chain_data_source_config);
    let plan = additional_wallets(&vec![], &vec![account], lookahead);
    assert_eq!(plan.len(), 1);
    let wallet = wallet(account, plan[0].lookahead);
    let full = |_: OnchainWalletAccount| -> Result<(), Error> { Ok(()) };
    let incremental = |_: OnchainWalletAccount| -> Result<SyncRequest<u32>, Error> {
        let ahead = wallet.spk_index().inner().all_spks().iter();
        let scripts = ahead
            .filter(|((kind, _), _)| *kind == bdk_wallet::KeychainKind::External)
            .map(|((_, index), script)| (*index, script.clone()));
        Ok(SyncRequest::builder().spks_with_indexes(scripts).build())
    };
    let mut requests =
        collect_additional_sync_requests(&vec![account], &state, &full, &incremental).unwrap();
    match requests.pop().unwrap().1 {
        WalletSyncRequest::Incremental(request) => {
            assert_eq!(request.progress().spks_remaining, 1_000);
        }
        WalletSyncRequest::FullScan(_) => panic!("expected incremental sync request"),
    }
}

#[test]
fn a_refused_request_ends_the_collection() {
    let state = SyncState::new();
    let full =
        |_: OnchainWalletAccount| -> Result<(), Error> { Err(Error::WalletOperationFailed) };
    let incremental = |_: OnchainWalletAccount| -> Result<(), Error> { Ok(()) };
    assert!(collect_additional_sync_requests(&vec![secondary()], &state, &full, &incremental)
        .is_err());
}

#[test]
fn the_primary_error_comes_first() {
    let mut state = SyncState::new();
    let outcome = apply_wallet_sync_results::<TestEvent>(
        PrimarySync::NoUpdate,
        Some(Error::TxSyncFailed),
        Some(Error::WalletOperationFailed),
        vec![(secondary(), AccountSync::NotFetched(Error::WalletOperationTimeout))],
        &mut state,
    );
    assert!(!outcome.any_applied && !outcome.primary_applied);
    assert_eq!(outcome.error, Some(Error::TxSyncFailed));
    let finish = finish_wallet_sync(outcome, Ok(()));
    assert_eq!(finish.outcome.result(), Err(Error::TxSyncFailed));
    assert!(!finish.write_metrics);
}

#[test]
fn fetched_updates_are_sorted_out() {
    let fetched = collect_fetched(vec![
        FetchEnd::Ran { account: None, result: Ok(1) },
        FetchEnd::Ran { account: Some(secondary()), result: Err(Error::TxSyncTimeout) },
        FetchEnd::Lost,
    ]);
    assert_eq!(fetched.primary_update, Some(1));
    assert_eq!(fetched.primary_error, None);
    assert_eq!(fetched.additional_results, vec![(secondary(), Err(Error::TxSyncTimeout))]);
    assert!(fetched.task_error.is_some());
}
