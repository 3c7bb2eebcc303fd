use std::collections::HashMap;
use std::str::FromStr;

use bitcoin::bip32::DerivationPath;
use bitcoin::hashes::Hash as _;
use bitcoin::secp256k1::Secp256k1;
use ldk_node::builder::accounts::{
    additional_wallets, after_wallet_load, build_additional_wallets, created_wallet,
    initial_checkpoint, public_descriptor, validate_configured_onchain_wallet_accounts,
    AdditionalWallet, AfterLoad, WalletLoad,
};
use ldk_node::builder::migration::{
    after_migration_step, begin_migration, monitor_key, should_write_manager,
    should_write_monitor, summarize_monitor, DecodedMonitor, MigrationReply, MigrationStep,
};
use ldk_node::builder::options::{
    derived_account_lookahead, sanitize_alias, seed_bytes_from_file, seed_bytes_from_list,
    seed_source, setup_logger, ChainDataSourceConfig, GossipSourceConfig, LSPS2ServiceConfig,
    LogLevel, LoggerSetup, SeedSource,
};
use ldk_node::builder::stages::{
    build_settings, chain_source_setup, check_announcement, first_best_block, keeps_messages,
    lsps_promise_secret, plan_wallet, user_config, vss_key, vss_keys, Build, BuildSettings,
    BuildStage, ChainSourceSetup, GraphSource, ManagerRead, Origin, StageEvent, TaskRead,
};
use ldk_node::builder::{BuildError, ChannelDataMigration, NodeBuilder};
use ldk_node::config::{
    AddressType, AsyncPaymentsRole, BitcoindRestClientConfig, Config, ElectrumSyncConfig,
    NodeAlias, OnchainWalletAccount, OnchainWalletAccountConfig, ScoringDecayParameters,
    ScoringFeeParameters, SocketAddress,
};
use ldk_node::error::IoErrorKind;
use ldk_node::keys::{
    account_derivation_path, derive_account_xprv, derive_account_xpub_string, derive_xprv,
    KeychainKind, Mnemonic, Xpriv,
};
use ldk_node::types::{BestBlock, BlockHash, Network, PublicKey, Txid};
use lightning::ln::functional_test_utils::{
    create_announced_chan_between_nodes, create_chanmon_cfgs, create_network, create_node_cfgs,
    create_node_chanmgrs,
};
use lightning::chain::channelmonitor::ChannelMonitor;
use lightning::sign::{InMemorySigner, KeysManager};
use lightning::util::ser::{ReadableArgs, Writeable};

#[test]
fn sanitize_empty_node_alias() {
    // Empty node alias
    let alias = "";
    let expected_node_alias = NodeAlias([0; 32]);
    let node_alias = sanitize_alias(alias).unwrap();
    assert_eq!(node_alias.0, expected_node_alias.0);
}

#[test]
fn sanitize_alias_with_sandwiched_null() {
    // Alias with emojis
    let alias = "I\u{1F496}LDK-Node!";
    let mut buf = [0u8; 32];
    buf[..alias.as_bytes().len()].copy_from_slice(alias.as_bytes());
    let expected_alias = NodeAlias(buf);

    let user_provided_alias = "I\u{1F496}LDK-Node!\0\u{26A1}";
    let node_alias = sanitize_alias(user_provided_alias).unwrap();

    let node_alias_display =
        format!("{}", lightning::routing::gossip::NodeAlias(node_alias.0));

    assert_eq!(alias, &node_alias_display);
    assert_ne!(expected_alias.0, node_alias.0);
}

#[test]
fn sanitize_alias_gt_32_bytes() {
    let alias = "This is a string longer than thirty-two bytes!"; // 46 bytes
    let node = sanitize_alias(alias);
    assert_eq!(node.err().unwrap(), BuildError::InvalidNodeAlias);
}

#[test]
fn sanitize_alias_drops_the_white_space_around_it() {
    let mut buf = [0u8; 32];
    buf[..3].copy_from_slice(b"a b");
    assert_eq!(sanitize_alias("\u{3000}\t a b \n\u{00A0}").unwrap().0, buf);
    // Thirty-two bytes fit, white space aside; one more does not.
    assert!(sanitize_alias("  0123456789abcdef0123456789abcdef  ").is_ok());
    assert!(sanitize_alias("0123456789abcdef0123456789abcdef0").is_err());
}

#[test]
fn validates_and_deduplicates_configured_onchain_wallet_accounts() {
    let xprv = Xpriv::new_master(Network::Regtest, &[42; 64]).unwrap();
    let xpub =
        derive_account_xpub_string(&xprv, Network::Regtest, AddressType::Taproot, 1).unwrap();
    let configured = OnchainWalletAccountConfig {
        address_type: AddressType::Taproot,
        account_index: 1,
        xpub,
    };
    let mut config = Config::default();
    config.network = Network::Regtest;
    config.onchain_wallet_accounts = vec![configured.clone(), configured];

    let accounts = validate_configured_onchain_wallet_accounts(&config, &xprv).unwrap();
    assert_eq!(accounts.len(), 1);
    assert_eq!(accounts[0].address_type, AddressType::Taproot);
    assert_eq!(accounts[0].account_index, 1);

    config.onchain_wallet_accounts[0].xpub = "wrong xpub".to_string();
    assert_eq!(
        validate_configured_onchain_wallet_accounts(&config, &xprv),
        Err(BuildError::InvalidSeedBytes)
    );

    config.onchain_wallet_accounts[0].account_index = 0;
    assert_eq!(
        validate_configured_onchain_wallet_accounts(&config, &xprv),
        Err(BuildError::InvalidSeedBytes)
    );
}

#[test]
fn build_rejects_configured_account_xpub_from_another_seed() {
    let foreign_xprv = Xpriv::new_master(Network::Regtest, &[43; 64]).unwrap();
    let foreign_xpub = derive_account_xpub_string(
        &foreign_xprv,
        Network::Regtest,
        AddressType::NativeSegwit,
        1,
    )
    .unwrap();
    let mut config = Config::default();
    config.network = Network::Regtest;
    config.onchain_wallet_accounts = vec![OnchainWalletAccountConfig {
        address_type: AddressType::NativeSegwit,
        account_index: 1,
        xpub: foreign_xpub,
    }];
    let mut builder = NodeBuilder::from_config(config);
    builder.set_entropy_seed_bytes([42; 64]);
    builder.set_log_facade_logger();

    let seed = match seed_source(&builder.config, &builder.entropy_source_config) {
        SeedSource::Seed(seed) => seed,
        SeedSource::File(_) => panic!("the seed was given"),
    };
    let plan = plan_wallet(&builder.config, &builder.chain_data_source_config, &seed);
    assert!(matches!(plan, Err(BuildError::InvalidSeedBytes)));

    // With the key of its own seed the account is accepted, whatever white space is around it.
    let own = Xpriv::new_master(Network::Regtest, &seed).unwrap();
    let xpub =
        derive_account_xpub_string(&own, Network::Regtest, AddressType::NativeSegwit, 1).unwrap();
    builder.config.onchain_wallet_accounts[0].xpub = format!(" {} ", xpub);
    let plan = plan_wallet(&builder.config, &builder.chain_data_source_config, &seed).ok().unwrap();
    assert_eq!(plan.accounts.len(), 1);
    assert_eq!(plan.lookahead, 20);
    assert_eq!(plan.master.public_key(), own.public_key());
}

#[test]
fn set_scoring_params_updates_builder_config() {
    let mut builder = NodeBuilder::from_config(Config::default());
    let fee_params = ScoringFeeParameters {
        base_penalty_msat: 2_000,
        base_penalty_amount_multiplier_msat: 200_000,
        liquidity_penalty_multiplier_msat: 1,
        liquidity_penalty_amount_multiplier_msat: 2,
        historical_liquidity_penalty_multiplier_msat: 20_000,
        historical_liquidity_penalty_amount_multiplier_msat: 2_500,
        anti_probing_penalty_msat: 500,
        considered_impossible_penalty_msat: 999_999,
        linear_success_probability: true,
        probing_diversity_penalty_msat: 321,
    };
    let decay_params = ScoringDecayParameters {
        historical_no_updates_half_life_secs: 1_234,
        liquidity_offset_half_life_secs: 567,
    };

    builder.set_scoring_fee_params(fee_params.clone());
    builder.set_scoring_decay_params(decay_params.clone());

    assert_eq!(
        builder.config.scoring_fee_params.as_ref().unwrap().base_penalty_msat,
        fee_params.base_penalty_msat
    );
    assert_eq!(
        builder.config.scoring_fee_params.as_ref().unwrap().linear_success_probability,
        fee_params.linear_success_probability
    );
    assert_eq!(
        builder.config.scoring_decay_params.as_ref().unwrap().historical_no_updates_half_life_secs,
        decay_params.historical_no_updates_half_life_secs
    );
}

fn create_test_monitor_bytes() -> (Vec<u8>, String, u64, [u8; 32]) {
    let chanmon_cfgs = create_chanmon_cfgs(2);
    let node_cfgs = create_node_cfgs(2, &chanmon_cfgs);
    let node_chanmgrs = create_node_chanmgrs(2, &node_cfgs, &[None, None]);
    let nodes = create_network(2, &node_cfgs, &node_chanmgrs);

    let _ = create_announced_chan_between_nodes(&nodes, 0, 1);

    let channel_id = nodes[0].node.list_channels()[0].channel_id;
    let monitor = nodes[0].chain_monitor.chain_monitor.get_monitor(channel_id).unwrap();

    let funding_txo = monitor.get_funding_txo();
    let monitor_key = format!("{}_{}", funding_txo.txid, funding_txo.index);
    let update_id = monitor.get_latest_update_id();

    let seed = nodes[0].node_seed;
    let mut serialized = Vec::new();
    monitor.write(&mut serialized).unwrap();

    (serialized, monitor_key, update_id, seed)
}

/// A store in memory that may refuse to be read.
struct TestStore {
    entries: HashMap<String, Vec<u8>>,
    fails_reads: bool,
}

const MANAGER_KEY: &str = "manager";

impl TestStore {
    fn new() -> Self {
        TestStore { entries: HashMap::new(), fails_reads: false }
    }

    fn read(&self, key: &str) -> Result<Vec<u8>, IoErrorKind> {
        if self.fails_reads {
            return Err(IoErrorKind::Other);
        }
        self.entries.get(key).cloned().ok_or(IoErrorKind::NotFound)
    }
}

fn decode_monitor(bytes: &[u8], seed: &[u8; 32]) -> Option<DecodedMonitor> {
    let keys = KeysManager::new(seed, 0, 0, false);
    let read = <(bitcoin::BlockHash, ChannelMonitor<InMemorySigner>)>::read(
        &mut &bytes[..],
        (&keys, &keys),
    );
    let (_, monitor) = read.ok()?;
    let txo = monitor.get_funding_txo();
    Some((Txid(txo.txid.to_byte_array()), txo.index, monitor.get_latest_update_id()))
}

fn apply_channel_data_migration(
    migration: &ChannelDataMigration,
    store: &mut TestStore,
    seed: &[u8; 32],
) -> Result<(), BuildError> {
    let mut step = begin_migration(migration);
    loop {
        let reply = match &step {
            MigrationStep::ReadManager => {
                MigrationReply::ManagerRead(store.read(MANAGER_KEY).map(|_| ()))
            }
            MigrationStep::WriteManager => {
                let bytes = migration.channel_manager.clone().unwrap();
                store.entries.insert(MANAGER_KEY.to_string(), bytes);
                MigrationReply::Written(Ok(()))
            }
            MigrationStep::DecodeMonitor { position } => MigrationReply::Decoded(decode_monitor(
                &migration.channel_monitors[*position],
                seed,
            )),
            MigrationStep::ReadMonitor { monitor, .. } => MigrationReply::MonitorRead(
                store.read(&monitor.key).map(|bytes| decode_monitor(&bytes, seed)),
            ),
            MigrationStep::WriteMonitor { position, key } => {
                store.entries.insert(key.clone(), migration.channel_monitors[*position].clone());
                MigrationReply::Written(Ok(()))
            }
            MigrationStep::Return(result) => return *result,
        };
        step = after_migration_step(step, reply, migration);
    }
}

#[test]
fn test_migration_invalid_monitor_data_returns_read_failed() {
    let mut store = TestStore::new();
    let migration = ChannelDataMigration {
        channel_manager: None,
        channel_monitors: vec![vec![0xDE, 0xAD, 0xBE, 0xEF]],
    };

    let result = apply_channel_data_migration(&migration, &mut store, &[42u8; 32]);
    assert_eq!(result, Err(BuildError::ReadFailed));
}

#[test]
fn test_migration_empty_monitors_succeeds() {
    let mut store = TestStore::new();
    let migration = ChannelDataMigration { channel_manager: None, channel_monitors: Vec::new() };

    let result = apply_channel_data_migration(&migration, &mut store, &[42u8; 32]);
    assert!(result.is_ok());
}

#[test]
fn test_migration_fresh_write_to_empty_store() {
    let (monitor_bytes, monitor_key, _, seed) = create_test_monitor_bytes();
    let mut store = TestStore::new();

    let migration = ChannelDataMigration {
        channel_manager: None,
        channel_monitors: vec![monitor_bytes.clone()],
    };

    let result = apply_channel_data_migration(&migration, &mut store, &seed);
    assert!(result.is_ok());

    // Verify the monitor was written to the store.
    let stored = store.read(&monitor_key);
    assert!(stored.is_ok());
    assert_eq!(stored.unwrap(), monitor_bytes);
}

#[test]
fn test_migration_skips_when_existing_is_newer_or_equal() {
    let (monitor_bytes, monitor_key, update_id, seed) = create_test_monitor_bytes();
    let mut store = TestStore::new();
    store.entries.insert(monitor_key, monitor_bytes.clone());

    let migration = ChannelDataMigration {
        channel_manager: None,
        channel_monitors: vec![monitor_bytes.clone()],
    };

    let result = apply_channel_data_migration(&migration, &mut store, &seed);
    assert!(result.is_ok());

    // An older one would be replaced, one of the same age or a newer one is not.
    let decoded = decode_monitor(&monitor_bytes, &seed);
    assert_eq!(should_write_monitor(update_id + 1, Ok(decoded)), Ok(true));
    assert_eq!(should_write_monitor(update_id, Ok(decoded)), Ok(false));
    assert_eq!(summarize_monitor(decoded).unwrap().update_id, update_id);
}

#[test]
fn test_migration_skips_on_corrupt_existing_data() {
    let (monitor_bytes, monitor_key, _, seed) = create_test_monitor_bytes();
    let mut store = TestStore::new();

    let corrupt_data = vec![0xFF, 0xFE, 0xFD, 0xFC];
    store.entries.insert(monitor_key.clone(), corrupt_data.clone());

    let migration =
        ChannelDataMigration { channel_manager: None, channel_monitors: vec![monitor_bytes] };

    let result = apply_channel_data_migration(&migration, &mut store, &seed);
    assert_eq!(result, Ok(()));

    // Verify the corrupt data was NOT overwritten — existing state preserved.
    let stored = store.read(&monitor_key).unwrap();
    assert_eq!(stored, corrupt_data);
}

#[test]
fn a_second_migration_changes_nothing() {
    let (monitor_bytes, monitor_key, _, seed) = create_test_monitor_bytes();
    let mut store = TestStore::new();
    store.entries.insert("another key".to_string(), vec![1]);
    let migration = ChannelDataMigration {
        channel_manager: Some(vec![0x01, 0x02]),
        channel_monitors: vec![monitor_bytes.clone()],
    };

    assert_eq!(apply_channel_data_migration(&migration, &mut store, &seed), Ok(()));
    let once = store.entries.clone();
    assert_eq!(once.len(), 3);
    assert_eq!(once[MANAGER_KEY], vec![0x01, 0x02]);
    assert_eq!(once[&monitor_key], monitor_bytes);
    assert_eq!(apply_channel_data_migration(&migration, &mut store, &seed), Ok(()));
    assert_eq!(store.entries, once);
}

#[test]
fn test_migration_fails_on_store_read_error() {
    let (monitor_bytes, _, _, seed) = create_test_monitor_bytes();
    let mut store = TestStore { entries: HashMap::new(), fails_reads: true };

    let migration =
        ChannelDataMigration { channel_manager: None, channel_monitors: vec![monitor_bytes] };

    let result = apply_channel_data_migration(&migration, &mut store, &seed);
    assert_eq!(result, Err(BuildError::ReadFailed));
}

#[test]
fn test_channel_manager_migration_fresh_write_to_empty_store() {
    let mut store = TestStore::new();
    let manager_bytes = vec![0x01, 0x02, 0x03, 0x04];

    let migration = ChannelDataMigration {
        channel_manager: Some(manager_bytes.clone()),
        channel_monitors: Vec::new(),
    };

    let result = apply_channel_data_migration(&migration, &mut store, &[42u8; 32]);
    assert!(result.is_ok());

    // Verify the channel manager was written to the store.
    let stored = store.read(MANAGER_KEY);
    assert!(stored.is_ok());
    assert_eq!(stored.unwrap(), manager_bytes);
}

#[test]
fn test_channel_manager_migration_skips_when_existing_data_present() {
    let mut store = TestStore::new();

    // Pre-populate the store with existing channel manager data.
    let existing_data = vec![0xAA, 0xBB, 0xCC];
    store.entries.insert(MANAGER_KEY.to_string(), existing_data.clone());

    // Attempt migration with different data.
    let migration = ChannelDataMigration {
        channel_manager: Some(vec![0x01, 0x02, 0x03]),
        channel_monitors: Vec::new(),
    };

    let result = apply_channel_data_migration(&migration, &mut store, &[42u8; 32]);
    assert!(result.is_ok());

    // Verify the original data is preserved (migration was skipped).
    assert_eq!(store.read(MANAGER_KEY).unwrap(), existing_data);
}

#[test]
fn test_channel_manager_migration_skips_even_when_existing_data_is_corrupt() {
    let mut store = TestStore::new();

    // Pre-populate the store with corrupt/garbage data.
    let corrupt_data = vec![0xDE, 0xAD, 0xBE, 0xEF];
    store.entries.insert(MANAGER_KEY.to_string(), corrupt_data.clone());

    let migration = ChannelDataMigration {
        channel_manager: Some(vec![0x01, 0x02, 0x03]),
        channel_monitors: Vec::new(),
    };

    let result = apply_channel_data_migration(&migration, &mut store, &[42u8; 32]);
    assert!(result.is_ok());

    // Verify the corrupt data is preserved (migration was skipped).
    assert_eq!(store.read(MANAGER_KEY).unwrap(), corrupt_data);
}

#[test]
fn test_channel_manager_migration_fails_on_store_read_error() {
    let mut store = TestStore { entries: HashMap::new(), fails_reads: true };

    let migration = ChannelDataMigration {
        channel_manager: Some(vec![0x01, 0x02, 0x03]),
        channel_monitors: Vec::new(),
    };

    let result = apply_channel_data_migration(&migration, &mut store, &[42u8; 32]);
    assert_eq!(result, Err(BuildError::ReadFailed));
}

#[test]
fn a_failed_write_ends_a_migration() {
    let migration = ChannelDataMigration {
        channel_manager: Some(vec![0x01]),
        channel_monitors: vec![vec![0xDE]],
    };
    let step = begin_migration(&migration);
    assert!(matches!(step, MigrationStep::ReadManager));
    let step = after_migration_step(
        step,
        MigrationReply::ManagerRead(Err(IoErrorKind::NotFound)),
        &migration,
    );
    assert!(matches!(step, MigrationStep::WriteManager));
    let step = after_migration_step(
        step,
        MigrationReply::Written(Err(IoErrorKind::Other)),
        &migration,
    );
    assert!(matches!(step, MigrationStep::Return(Err(BuildError::WriteFailed))));

    assert_eq!(should_write_manager(Err(IoErrorKind::NotFound)), Ok(true));
    assert_eq!(should_write_manager(Ok(())), Ok(false));
    assert_eq!(should_write_manager(Err(IoErrorKind::Other)), Err(BuildError::ReadFailed));
    assert_eq!(monitor_key(Txid([0xab; 32]), 65_535), format!("{}_65535", "ab".repeat(32)));
}

#[test]
fn derived_account_xpub_differs_from_account_zero() {
    let seed = [7u8; 64];
    let master = Xpriv::new_master(Network::Regtest, &seed).unwrap();
    let xpub0 =
        derive_account_xpub_string(&master, Network::Regtest, AddressType::NativeSegwit, 0)
            .unwrap();
    let xpub1 =
        derive_account_xpub_string(&master, Network::Regtest, AddressType::NativeSegwit, 1)
            .unwrap();
    assert_ne!(xpub0, xpub1);
    assert!(xpub1.starts_with('t') || xpub1.starts_with('x'));
}

#[test]
fn derived_account_descriptors_include_account_index_in_origin() {
    let network = Network::Regtest;
    let master = Xpriv::new_master(network, &[42u8; 64]).unwrap();
    let account =
        OnchainWalletAccount { address_type: AddressType::NativeSegwit, account_index: 7 };
    let (_, loaded) = created_wallet(Some(())).unwrap();
    assert!(!loaded);

    let descriptor =
        public_descriptor(account, &master, network, KeychainKind::External).unwrap();
    let change = public_descriptor(account, &master, network, KeychainKind::Internal).unwrap();
    assert!(
        descriptor.contains("/84'/1'/7'"),
        "descriptor origin must include account 7, got {}",
        descriptor
    );

    let expected_path = DerivationPath::from_str("m/84'/1'/7'").unwrap();
    let master = bitcoin::bip32::Xpriv::new_master(bitcoin::Network::Regtest, &[42u8; 64]).unwrap();
    let expected_xpub = bitcoin::bip32::Xpub::from_priv(
        &Secp256k1::new(),
        &master.derive_priv(&Secp256k1::new(), &expected_path).unwrap(),
    );
    assert!(descriptor.contains(&expected_xpub.to_string()));
    let wallet = bdk_wallet::Wallet::create(descriptor, change)
        .network(bitcoin::Network::Regtest)
        .create_wallet_no_persist()
        .unwrap();
    let address = wallet.peek_address(bdk_wallet::KeychainKind::External, 0).address;
    assert!(address.script_pubkey().is_p2wpkh());
}

#[test]
fn the_first_account_keeps_the_standard_descriptors() {
    // The key and the descriptor are those of the documentation of the BIP 84 template.
    let key = bitcoin::bip32::Xpriv::from_str("tprv8ZgxMBicQKsPeZRHk4rTG6orPS2CRNFX3njhUXx5vj9qGog5ZMH4uGReDWN5kCkY3jmWEtWause41CDvBRXD1shKknAMKxT99o9qUTRVC6m").unwrap();
    let master = Xpriv::decode(key.encode()).unwrap();
    let account = OnchainWalletAccount::account_zero(AddressType::NativeSegwit);
    assert_eq!(
        public_descriptor(account, &master, Network::Testnet, KeychainKind::External).unwrap(),
        "wpkh([c55b303f/84'/1'/0']tpubDDc5mum24DekpNw92t6fHGp8Gr2JjF9J7i4TZBtN6Vp8xpAULG5CFaKsfugWa5imhrQQUZKXe261asP5koDHo5bs3qNTmf3U3o4v9SaB8gg/0/*)#6kfecsmr"
    );
    for (address_type, prefix, origin) in [
        (AddressType::Legacy, "pkh(", "/44'/1'/0'"),
        (AddressType::NestedSegwit, "sh(wpkh(", "/49'/1'/0'"),
        (AddressType::Taproot, "tr(", "/86'/1'/0'"),
    ] {
        let account = OnchainWalletAccount::account_zero(address_type);
        for keychain in [KeychainKind::External, KeychainKind::Internal] {
            let text = public_descriptor(account, &master, Network::Signet, keychain).unwrap();
            assert!(text.starts_with(prefix));
            assert!(text.contains(origin));
        }
        let account = OnchainWalletAccount { address_type, account_index: 3 };
        let text =
            public_descriptor(account, &master, Network::Signet, KeychainKind::Internal).unwrap();
        assert!(text.starts_with(prefix));
        assert!(text.contains("/3'"));
        assert!(text.contains("/1/*"));
    }
    let account =
        OnchainWalletAccount { address_type: AddressType::Taproot, account_index: 0x8000_0000 };
    assert_eq!(
        public_descriptor(account, &master, Network::Signet, KeychainKind::External),
        Err(BuildError::InvalidSeedBytes)
    );
}

#[test]
fn derived_account_xpub_rejects_different_seed() {
    let master_a = Xpriv::new_master(Network::Regtest, &[1u8; 64]).unwrap();
    let master_b = Xpriv::new_master(Network::Regtest, &[2u8; 64]).unwrap();
    let xpub_a =
        derive_account_xpub_string(&master_a, Network::Regtest, AddressType::NativeSegwit, 1)
            .unwrap();
    let xpub_b =
        derive_account_xpub_string(&master_b, Network::Regtest, AddressType::NativeSegwit, 1)
            .unwrap();
    assert_ne!(xpub_a, xpub_b);
}

#[test]
fn keys_are_those_of_the_standard() {
    // The first test vector of BIP 32.
    let seed = ldk_node::hex::to_vec("000102030405060708090a0b0c0d0e0f").unwrap();
    let master = Xpriv::new_master(Network::Bitcoin, &seed).unwrap();
    assert_eq!(
        master.public_key(),
        "xpub661MyMwAqRbcFtXgS5sYJABqqG9YLmC4Q1Rdap9gSE8NqtwybGhePY2gZ29ESFjqJoCu1Rupje8YtGqsefD265TMg7usUDFdp6W1EGMcet8"
    );
    assert_eq!(ldk_node::hex::to_string(&master.fingerprint()), "3442193e");
    assert_eq!(
        ldk_node::hex::to_string(&master.secret_bytes()),
        "e8f32e723decf4051aefac8e2c93c9c5b214313817cdb01a1494b917c8436b35"
    );
    let child = master.derive_priv(&vec![0x8000_0000]).unwrap();
    assert_eq!(
        child.public_key(),
        "xpub68Gmy5EdvgibQVfPdqkBBCHxA5htiqg55crXYuXoQRKfDBFA1WEjWgP6LHhwBZeNK1VTsfTFUHCdrfp1bgwQ9xv5ski8PX9rL2dZXvgGDnw"
    );
    assert!(Xpriv::decode(*master.as_bytes()).is_some());
    assert!(Xpriv::decode([0; 78]).is_none());
    assert_eq!(
        account_derivation_path(AddressType::Taproot, Network::Bitcoin, 5).unwrap(),
        vec![0x8000_0056, 0x8000_0000, 0x8000_0005]
    );
    assert!(account_derivation_path(AddressType::Taproot, Network::Bitcoin, 0x8000_0000).is_none());
    let (account, fingerprint) =
        derive_account_xprv(&master, Network::Bitcoin, AddressType::NativeSegwit, 0).unwrap();
    assert_eq!(fingerprint, master.fingerprint());
    assert_ne!(account.public_key(), master.public_key());
}

#[test]
fn mnemonics_stand_for_seeds() {
    let words = "abandon abandon abandon abandon abandon abandon abandon abandon abandon abandon abandon about";
    let mnemonic = Mnemonic::parse(words.to_string()).unwrap();
    assert_eq!(
        ldk_node::hex::to_string(&mnemonic.to_seed("TREZOR")),
        "c55257c360c07c72029aebc1b53c05ed0362ada38ead3e3e9efa3708e53495531f09a6987599d18264c1e1c92f2cf141630c7a3c4ab7c81b2f001698e7463b04"
    );
    assert!(Mnemonic::parse("abandon abandon".to_string()).is_none());

    let mut builder = NodeBuilder::new();
    builder.set_entropy_bip39_mnemonic(mnemonic, None);
    let plain = Mnemonic::parse(words.to_string()).unwrap().to_seed("");
    match seed_source(&builder.config, &builder.entropy_source_config) {
        SeedSource::Seed(seed) => assert_eq!(seed, plain),
        SeedSource::File(_) => panic!("the seed was given"),
    }
}

#[test]
fn a_new_builder_starts_from_the_defaults() {
    let builder = NodeBuilder::new();
    let default = ldk_node::config::default_config();
    assert_eq!(format!("{:?}", builder.config), format!("{:?}", default));
    assert_eq!(builder.config.storage_dir_path, "/tmp/ldk_node/");
    assert!(builder.entropy_source_config.is_none() && builder.chain_data_source_config.is_none());
    assert!(builder.channel_data_migration.is_none() && builder.async_payments_role.is_none());
}

#[test]
fn seeds_come_from_where_they_are_configured() {
    let mut builder = NodeBuilder::new();
    builder.set_storage_dir_path("/data".to_string());
    assert!(matches!(
        seed_source(&builder.config, &builder.entropy_source_config),
        SeedSource::File(path) if path == "/data/keys_seed"
    ));
    builder.set_entropy_seed_path("/other/seed".to_string());
    assert!(matches!(
        seed_source(&builder.config, &builder.entropy_source_config),
        SeedSource::File(path) if path == "/other/seed"
    ));
    assert_eq!(seed_bytes_from_file(None), Err(BuildError::InvalidSeedFile));
    assert_eq!(seed_bytes_from_file(Some([1; 64])), Ok([1; 64]));
    assert_eq!(seed_bytes_from_list(&vec![7; 63]), Err(BuildError::InvalidSeedBytes));
    assert_eq!(seed_bytes_from_list(&vec![7; 65]), Err(BuildError::InvalidSeedBytes));
    assert_eq!(seed_bytes_from_list(&vec![7; 64]), Ok([7; 64]));
}

#[test]
fn logs_go_where_they_are_configured() {
    let mut builder = NodeBuilder::new();
    builder.set_storage_dir_path("/data".to_string());
    assert!(matches!(
        setup_logger(&builder.log_writer_config, &builder.config),
        LoggerSetup::File { log_file_path, max_log_level: LogLevel::Debug }
            if log_file_path == "/data/ldk_node.log"
    ));
    builder.set_filesystem_logger(Some("/var/log/node".to_string()), Some(LogLevel::Warn));
    assert!(matches!(
        setup_logger(&builder.log_writer_config, &builder.config),
        LoggerSetup::File { log_file_path, max_log_level: LogLevel::Warn }
            if log_file_path == "/var/log/node"
    ));
    builder.set_filesystem_logger(None, None);
    assert!(matches!(
        setup_logger(&builder.log_writer_config, &builder.config),
        LoggerSetup::File { log_file_path, max_log_level: LogLevel::Debug }
            if log_file_path == "/data/ldk_node.log"
    ));
    builder.set_log_facade_logger();
    assert!(matches!(setup_logger(&builder.log_writer_config, &builder.config), LoggerSetup::Log));
    builder.set_custom_logger();
    assert!(matches!(
        setup_logger(&builder.log_writer_config, &builder.config),
        LoggerSetup::Custom
    ));
}

fn address(port: u16) -> SocketAddress {
    SocketAddress::TcpIpV4 { addr: [127, 0, 0, 1], port }
}

#[test]
fn addresses_are_limited() {
    let mut builder = NodeBuilder::new();
    let many: Vec<SocketAddress> = (0..101).map(address).collect();
    assert_eq!(
        builder.set_listening_addresses(many.clone()).err(),
        Some(BuildError::InvalidListeningAddresses)
    );
    assert_eq!(
        builder.set_announcement_addresses(many.clone()).err(),
        Some(BuildError::InvalidAnnouncementAddresses)
    );
    assert!(builder.config.listening_addresses.is_none());
    assert!(builder.set_listening_addresses(many[..100].to_vec()).is_ok());
    assert_eq!(builder.config.listening_addresses.as_ref().unwrap().len(), 100);
}

#[test]
fn a_server_of_async_payments_must_announce() {
    let mut builder = NodeBuilder::new();
    assert_eq!(
        builder.set_async_payments_role(Some(AsyncPaymentsRole::Server)).err(),
        Some(BuildError::AsyncPaymentsConfigMismatch)
    );
    assert!(builder.set_async_payments_role(Some(AsyncPaymentsRole::Client)).is_ok());
    assert_eq!(builder.async_payments_role, Some(AsyncPaymentsRole::Client));
    assert_eq!(
        builder.set_node_alias("x".repeat(33)).err(),
        Some(BuildError::InvalidNodeAlias)
    );
    assert!(builder.set_node_alias(" alias ".to_string()).is_ok());
    assert!(builder.set_listening_addresses(vec![address(1)]).is_ok());
    assert!(builder.set_async_payments_role(Some(AsyncPaymentsRole::Server)).is_ok());
    assert!(keeps_messages(builder.async_payments_role));
    assert!(!keeps_messages(None));
}

#[test]
fn an_announcement_needs_an_alias_and_addresses() {
    let mut config = Config::default();
    assert_eq!(check_announcement(&config), Ok(()));
    config.node_alias = Some(NodeAlias([1; 32]));
    assert_eq!(check_announcement(&config), Err(BuildError::InvalidListeningAddresses));
    config.announcement_addresses = Some(vec![address(1)]);
    assert_eq!(check_announcement(&config), Err(BuildError::InvalidListeningAddresses));
    config.node_alias = None;
    config.listening_addresses = Some(vec![address(1)]);
    assert_eq!(check_announcement(&config), Err(BuildError::InvalidNodeAlias));
    config.node_alias = Some(NodeAlias([1; 32]));
    assert_eq!(check_announcement(&config), Ok(()));
}

#[test]
fn lsps_are_trusted() {
    let mut builder = NodeBuilder::new();
    let (a, b) = (PublicKey([2; 33]), PublicKey([3; 33]));
    builder
        .set_liquidity_source_lsps1(a, address(1), Some("token".to_string()))
        .set_liquidity_source_lsps2(b, address(2), None)
        .set_network(Network::Signet);
    assert_eq!(builder.config.trusted_peers_0conf, vec![a, b]);
    let liquidity = builder.liquidity_source_config.as_ref().unwrap();
    assert_eq!(liquidity.lsps1_client.as_ref().unwrap().node_id, a);
    assert_eq!(liquidity.lsps2_client.as_ref().unwrap().node_id, b);
    assert!(liquidity.lsps2_service.is_none());
    assert_eq!(builder.config.network, Network::Signet);
}

fn service_config() -> LSPS2ServiceConfig {
    LSPS2ServiceConfig {
        require_token: None,
        advertise_service: true,
        channel_opening_fee_ppm: 1,
        channel_over_provisioning_ppm: 2,
        min_channel_opening_fee_msat: 3,
        min_channel_lifetime: 4,
        max_client_to_self_delay: 5,
        min_payment_size_msat: 6,
        max_payment_size_msat: 7,
    }
}

#[test]
fn services_change_how_channels_are_used() {
    let mut builder = NodeBuilder::new();
    let plain = user_config(&builder.config, &builder.liquidity_source_config, None);
    assert!(!plain.accept_intercept_htlcs);
    assert!(!plain.accept_forwards_to_priv_channels);
    assert_eq!(plain.max_inbound_htlc_value_in_flight_percent_of_channel, 10);

    let server = user_config(&builder.config, &None, Some(AsyncPaymentsRole::Server));
    assert!(server.enable_htlc_hold && server.accept_forwards_to_priv_channels);
    assert!(!server.hold_outbound_htlcs_at_next_hop);
    let client = user_config(&builder.config, &None, Some(AsyncPaymentsRole::Client));
    assert!(client.hold_outbound_htlcs_at_next_hop && !client.enable_htlc_hold);

    builder.set_liquidity_provider_lsps2(service_config());
    let lsp = user_config(&builder.config, &builder.liquidity_source_config, None);
    assert!(lsp.accept_intercept_htlcs && lsp.accept_forwards_to_priv_channels);
    assert_eq!(lsp.max_inbound_htlc_value_in_flight_percent_of_channel, 100);
}

#[test]
fn the_chain_source_decides_the_lookahead() {
    assert_eq!(derived_account_lookahead(&None), 20);
    let electrum = |gap: Option<u32>| {
        Some(ChainDataSourceConfig::Electrum {
            server_url: "ssl://127.0.0.1:1".to_string(),
            sync_config: gap.map(|gap| ElectrumSyncConfig {
                additional_wallet_full_scan_stop_gap: gap,
                ..ElectrumSyncConfig::default()
            }),
        })
    };
    assert_eq!(derived_account_lookahead(&electrum(None)), 20);
    assert_eq!(derived_account_lookahead(&electrum(Some(0))), 1);
    assert_eq!(derived_account_lookahead(&electrum(Some(1_000))), 1_000);
    let mut builder = NodeBuilder::new();
    builder.set_chain_source_bitcoind_rpc(
        "host".to_string(),
        8332,
        "user".to_string(),
        "password".to_string(),
    );
    assert_eq!(derived_account_lookahead(&builder.chain_data_source_config), 25);
    assert!(matches!(
        chain_source_setup(builder.chain_data_source_config.take()),
        ChainSourceSetup::BitcoindRpc { rpc_port: 8332, .. }
    ));
    builder.set_chain_source_bitcoind_rest(
        "rest".to_string(),
        1,
        "host".to_string(),
        8332,
        "user".to_string(),
        "password".to_string(),
    );
    assert!(matches!(
        chain_source_setup(builder.chain_data_source_config.take()),
        ChainSourceSetup::BitcoindRest {
            rpc_port: 8332,
            rest_client_config: BitcoindRestClientConfig { rest_port: 1, .. },
            ..
        }
    ));
    builder.set_chain_source_esplora("http://127.0.0.1:1".to_string(), None);
    assert!(matches!(
        chain_source_setup(builder.chain_data_source_config.take()),
        ChainSourceSetup::Esplora { server_url, .. } if server_url == "http://127.0.0.1:1"
    ));
    match chain_source_setup(None) {
        ChainSourceSetup::Esplora { server_url, headers, sync_config } => {
            assert_eq!(server_url, "https://blockstream.info/api");
            assert!(headers.is_empty());
            assert!(sync_config.background_sync_config.is_some());
        }
        other => panic!("unexpected {:?}", other),
    }
}

#[test]
fn remote_stores_have_keys_of_their_own() {
    let seed = [42u8; 64];
    let (key, auth) = vss_keys(Network::Regtest, &seed).ok().unwrap();
    let expected = derive_xprv(Network::Regtest, &seed, 877).unwrap();
    assert_eq!(key.public_key(), expected.public_key());
    assert_eq!(
        auth.public_key(),
        expected.derive_priv(&vec![0x8000_0000 + 138]).unwrap().public_key()
    );
    assert_eq!(vss_key(Network::Regtest, &seed).ok().unwrap().public_key(), key.public_key());
    assert_eq!(
        lsps_promise_secret(Network::Regtest, &seed).unwrap(),
        derive_xprv(Network::Regtest, &seed, 577).unwrap().secret_bytes()
    );
}

#[test]
fn new_nodes_start_at_the_tip_or_the_first_block() {
    let genesis = first_best_block(Network::Regtest, None);
    assert_eq!(genesis.height, 0);
    let mut shown = genesis.block_hash.0;
    shown.reverse();
    assert_eq!(
        ldk_node::hex::to_string(&shown),
        "0f9188f13cb7b2c71f2a335e3a4fc328bf5beb436012afca590b1a11466e2206"
    );
    let tip = BestBlock { block_hash: BlockHash([1; 32]), height: 7 };
    assert_eq!(first_best_block(Network::Regtest, Some(tip)).height, 7);
    assert!(initial_checkpoint(true, Some(tip)).is_none());
    assert_eq!(initial_checkpoint(false, Some(tip)).unwrap().height, 7);
}

#[test]
fn wallets_that_do_not_load_end_the_build() {
    assert!(matches!(after_wallet_load(WalletLoad::Loaded(1)), AfterLoad::Use(1)));
    assert!(matches!(after_wallet_load::<u8>(WalletLoad::Missing), AfterLoad::Create));
    assert!(matches!(
        after_wallet_load::<u8>(WalletLoad::NetworkMismatch),
        AfterLoad::Fail(BuildError::NetworkMismatch)
    ));
    assert!(matches!(
        after_wallet_load::<u8>(WalletLoad::Failed),
        AfterLoad::Fail(BuildError::WalletSetupFailed)
    ));
    assert_eq!(created_wallet::<u8>(None), Err(BuildError::WalletSetupFailed));
}

#[test]
fn a_node_can_do_without_wallets_of_other_address_types() {
    let configured =
        vec![OnchainWalletAccount { address_type: AddressType::NativeSegwit, account_index: 1 }];
    let plan = additional_wallets(&vec![AddressType::Legacy, AddressType::Taproot], &configured, 9);
    assert_eq!(
        plan,
        vec![
            AdditionalWallet {
                account: OnchainWalletAccount::account_zero(AddressType::Legacy),
                lookahead: None,
                optional: true
            },
            AdditionalWallet {
                account: OnchainWalletAccount::account_zero(AddressType::Taproot),
                lookahead: None,
                optional: true
            },
            AdditionalWallet { account: configured[0], lookahead: Some(9), optional: false },
        ]
    );
    let built = vec![Err(BuildError::WalletSetupFailed), Ok(2), Ok(3)];
    let wallets = build_additional_wallets(&plan, built).unwrap();
    assert_eq!(wallets, vec![(plan[1].account, 2), (plan[2].account, 3)]);
    let built: Vec<Result<u8, BuildError>> =
        vec![Ok(1), Ok(2), Err(BuildError::NetworkMismatch)];
    assert_eq!(build_additional_wallets(&plan, built), Err(BuildError::NetworkMismatch));
}

fn stores_read() -> StageEvent {
    StageEvent::StoresRead {
        metrics: TaskRead::Read(Ok(Some(77))),
        payments: true,
        wallet: Some(Ok(())),
    }
}

#[test]
fn a_build_goes_through_its_stages() {
    let migration = Some(ChannelDataMigration::default());
    let settings = build_settings(&migration, &None, &None);
    assert_eq!(
        settings,
        BuildSettings { migrates_channels: true, gossips: true, uses_liquidity: false }
    );
    let tip = BestBlock { block_hash: BlockHash([1; 32]), height: 7 };
    let build = Build::new()
        .after_stage(stores_read(), settings)
        .after_stage(StageEvent::ChainSourceReady(Some(tip)), settings);
    assert!(matches!(build.stage, BuildStage::ApplyTip));
    let build = build
        .after_stage(StageEvent::TipApplied(true), settings)
        .after_stage(StageEvent::AdditionalWalletsBuilt(Ok(())), settings)
        .after_stage(StageEvent::Clock(Some(1)), settings);
    assert!(matches!(build.stage, BuildStage::MigrateChannels));
    let build = build
        .after_stage(StageEvent::Migrated(Ok(())), settings)
        .after_stage(StageEvent::LocalGraph(Err(IoErrorKind::NotFound)), settings);
    assert!(matches!(build.stage, BuildStage::ReadStoredGraph));
    let build = build.after_stage(StageEvent::StoredGraph(Ok(())), settings);
    assert_eq!(build.findings.graph, GraphSource::Store);
    assert_eq!(build.findings.rgs_timestamp, 77);
    let build = build
        .after_stage(
            StageEvent::ChannelData {
                monitors: TaskRead::Read(Ok(())),
                scorer: Err(IoErrorKind::NotFound),
                external_scores: Ok(true),
            },
            settings,
        )
        .after_stage(StageEvent::ChannelManager(ManagerRead::Decoded), settings)
        .after_stage(StageEvent::Watched(true), settings);
    assert!(matches!(build.stage, BuildStage::WriteMetrics));
    let build = build
        .after_stage(StageEvent::MetricsWritten(true), settings)
        .after_stage(StageEvent::PeerClock(Some(2)), settings)
        .after_stage(
            StageEvent::LateStores {
                sweeper: Ok(true),
                event_queue: Err(IoErrorKind::NotFound),
                peers: Ok(true),
            },
            settings,
        );
    assert!(matches!(build.stage, BuildStage::PersistMissingPeers));
    let build = build.after_stage(StageEvent::MissingPeersPersisted, settings);
    assert!(matches!(build.stage, BuildStage::Done(Ok(()))));
    let findings = build.findings;
    assert_eq!(findings.latest_rgs_snapshot_timestamp, None);
    assert_eq!(findings.metrics, Origin::Stored);
    assert_eq!(findings.scorer, Origin::New);
    assert!(findings.merges_external_scores);
    assert_eq!(findings.channel_manager, Origin::Stored);
    assert_eq!(findings.sweeper, Origin::Stored);
    assert_eq!(findings.event_queue, Origin::New);
    assert_eq!(findings.peers, Origin::Stored);
}

fn fails_with(stage: BuildStage, event: StageEvent, e: BuildError) {
    let settings = BuildSettings { migrates_channels: false, gossips: false, uses_liquidity: true };
    let mut build = Build::new();
    build.stage = stage;
    let build = build.after_stage(event, settings);
    match build.stage {
        BuildStage::Done(result) => assert_eq!(result, Err(e)),
        _ => panic!("the build goes on"),
    }
}

#[test]
fn the_first_failure_ends_a_build() {
    fails_with(
        BuildStage::ReadStores,
        StageEvent::StoresRead { metrics: TaskRead::TaskFailed, payments: true, wallet: None },
        BuildError::ReadFailed,
    );
    fails_with(
        BuildStage::ReadStores,
        StageEvent::StoresRead {
            metrics: TaskRead::Read(Err(IoErrorKind::NotFound)),
            payments: true,
            wallet: None,
        },
        BuildError::WalletSetupFailed,
    );
    fails_with(
        BuildStage::ReadStores,
        StageEvent::StoresRead {
            metrics: TaskRead::Read(Ok(None)),
            payments: false,
            wallet: Some(Err(BuildError::NetworkMismatch)),
        },
        BuildError::ReadFailed,
    );
    fails_with(
        BuildStage::ReadStores,
        StageEvent::StoresRead {
            metrics: TaskRead::Read(Ok(None)),
            payments: true,
            wallet: Some(Err(BuildError::NetworkMismatch)),
        },
        BuildError::NetworkMismatch,
    );
    fails_with(
        BuildStage::ApplyTip,
        StageEvent::TipApplied(false),
        BuildError::WalletSetupFailed,
    );
    fails_with(BuildStage::ReadClock, StageEvent::Clock(None), BuildError::InvalidSystemTime);
    fails_with(
        BuildStage::ReadPeerClock,
        StageEvent::PeerClock(Some(1 << 32)),
        BuildError::InvalidSystemTime,
    );
    fails_with(
        BuildStage::ReadStoredGraph,
        StageEvent::StoredGraph(Err(IoErrorKind::Other)),
        BuildError::ReadFailed,
    );
    fails_with(
        BuildStage::ReadChannelManager,
        StageEvent::ChannelManager(ManagerRead::Dangerous),
        BuildError::DangerousValue,
    );
    fails_with(
        BuildStage::ReadChannelManager,
        StageEvent::ChannelManager(ManagerRead::NotDecoded),
        BuildError::ReadFailed,
    );
    fails_with(
        BuildStage::WatchMonitors,
        StageEvent::Watched(false),
        BuildError::InvalidChannelMonitor,
    );
    fails_with(
        BuildStage::WriteMetrics,
        StageEvent::MetricsWritten(false),
        BuildError::WriteFailed,
    );
    fails_with(
        BuildStage::ReadLateStores,
        StageEvent::LateStores { sweeper: Ok(true), event_queue: Ok(false), peers: Ok(true) },
        BuildError::ReadFailed,
    );
}

#[test]
fn an_unreadable_graph_cache_is_replaced_by_an_empty_graph() {
    let settings = build_settings(
        &None,
        &Some(GossipSourceConfig::RapidGossipSync("http://rgs".to_string())),
        &None,
    );
    assert!(!settings.gossips);
    let mut build = Build::new();
    build.stage = BuildStage::ReadLocalGraph;
    build.findings.latest_rgs_snapshot_timestamp = Some(5);
    let build = build.after_stage(StageEvent::LocalGraph(Err(IoErrorKind::Other)), settings);
    assert_eq!(build.findings.graph, GraphSource::Empty);
    assert_eq!(build.findings.rgs_timestamp, 0);
    // What came of another stage changes nothing.
    let build = build.after_stage(StageEvent::Watched(false), settings);
    assert!(matches!(build.stage, BuildStage::ReadChannelData));
}

#[test]
fn build_errors_are_put_into_words() {
    assert_eq!(
        BuildError::InvalidSeedBytes.message(),
        "Given seed bytes or seed-derived wallet configuration are invalid."
    );
    assert_eq!(
        BuildError::DangerousValue.message(),
        "Deserialized channel data is dangerous to use (stale channel monitors)."
    );
    assert_eq!(BuildError::KVStoreSetupFailed.message(), "Failed to setup KVStore.");
}

#[test]
fn settings_reach_the_builder() {
    let mut builder = NodeBuilder::new();
    builder
        .set_chain_source_esplora_with_headers(
            "http://127.0.0.1:1".to_string(),
            vec![("Authorization".to_string(), "token".to_string())],
            None,
        )
        .set_address_type(AddressType::Taproot)
        .set_address_types_to_monitor(vec![AddressType::Legacy, AddressType::NativeSegwit])
        .set_pathfinding_scores_source("http://127.0.0.1:3".to_string())
        .set_channel_data_migration(ChannelDataMigration {
            channel_manager: Some(vec![1, 2]),
            channel_monitors: vec![vec![3]],
        });
    match &builder.chain_data_source_config {
        Some(ChainDataSourceConfig::Esplora { server_url, headers, sync_config }) => {
            assert_eq!(server_url, "http://127.0.0.1:1");
            assert_eq!(headers, &vec![("Authorization".to_string(), "token".to_string())]);
            assert!(sync_config.is_none());
        },
        source => panic!("unexpected source {:?}", source),
    }
    assert_eq!(builder.config.address_type, AddressType::Taproot);
    assert_eq!(
        builder.config.address_types_to_monitor,
        vec![AddressType::Legacy, AddressType::NativeSegwit]
    );
    assert_eq!(builder.pathfinding_scores_sync_config.as_ref().unwrap().url, "http://127.0.0.1:3");
    let migration = builder.channel_data_migration.as_ref().unwrap();
    assert_eq!(migration.channel_manager, Some(vec![1, 2]));
    assert_eq!(migration.channel_monitors, vec![vec![3]]);

    builder.set_gossip_source_rgs("http://127.0.0.1:2".to_string());
    assert!(matches!(
        &builder.gossip_source_config,
        Some(GossipSourceConfig::RapidGossipSync(url)) if url == "http://127.0.0.1:2"
    ));
    builder.set_gossip_source_p2p();
    assert!(matches!(&builder.gossip_source_config, Some(GossipSourceConfig::P2PNetwork)));
}
