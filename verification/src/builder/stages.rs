//! The stages in which a node is built, and what can go wrong in each of them.
use crate::builder::accounts::validate_configured_onchain_wallet_accounts;
use crate::builder::error::BuildError;
use crate::builder::options::{
    derived_account_lookahead, ChainDataSourceConfig, GossipSourceConfig, LiquiditySourceConfig,
};
use crate::config::{
    default_user_config, AsyncPaymentsRole, BitcoindRestClientConfig, Config, ElectrumSyncConfig,
    EsploraSyncConfig, OnchainWalletAccount, UserConfig,
};
use crate::error::IoErrorKind;
use crate::keys::{derive_xprv, Xpriv};
use crate::types::{BestBlock, BlockHash, Network};
use vstd::prelude::*;

verus! {

/// The child of the master key that the keys of a remote store derive from.
pub const VSS_HARDENED_CHILD_INDEX: u32 = 877;

/// The child of that key which logs in to a remote store.
pub const VSS_LNURL_AUTH_HARDENED_CHILD_INDEX: u32 = 138;

/// The child of the master key that liquidity promises are made with.
pub const LSPS_HARDENED_CHILD_INDEX: u32 = 577;

/// How many updates of a channel monitor are stored on their own before the whole is stored anew.
pub const PERSISTER_MAX_PENDING_UPDATES: u64 = 100;

/// What is wrong with the configured announcement of a node. Addresses to announce need an alias and
/// listening addresses, and an alias needs listening addresses.
pub open spec fn announcement_error(config: Config) -> Option<BuildError> {
    if crate::builder::node_builder::announces(config) {
        None
    } else if config.announcement_addresses is Some {
        if config.node_alias is None && crate::config::listens(config) {
            Some(BuildError::InvalidNodeAlias)
        } else {
            Some(BuildError::InvalidListeningAddresses)
        }
    } else if config.node_alias is Some {
        Some(BuildError::InvalidListeningAddresses)
    } else {
        None
    }
}

/// Checks the configured announcement of a node.
pub fn check_announcement(config: &Config) -> (check: Result<(), BuildError>)
    ensures
        check == (match announcement_error(*config) {
            Some(e) => Err::<(), BuildError>(e),
            None => Ok::<(), BuildError>(()),
        }),
{
    match crate::config::may_announce_channel(config) {
        Ok(()) => Ok(()),
        Err(err) => {
            if config.announcement_addresses.is_some() {
                if matches!(err, crate::config::AnnounceError::MissingNodeAlias) {
                    return Err(BuildError::InvalidNodeAlias);
                } else {
                    return Err(BuildError::InvalidListeningAddresses);
                }
            }
            if config.node_alias.is_some() {
                return Err(BuildError::InvalidListeningAddresses);
            }
            Ok(())
        },
    }
}

/// The keys and the accounts of a node.
pub struct WalletPlan {
    pub master: Xpriv,
    /// The configured accounts, each once.
    pub accounts: Vec<OnchainWalletAccount>,
    /// How many scripts the wallets of these accounts watch beyond the last one that is used.
    pub lookahead: u32,
}

/// Whether all configured accounts are what the seed says.
pub open spec fn accounts_are_valid(config: Config, master: Seq<u8>) -> bool {
    forall|i: int|
        0 <= i < config.onchain_wallet_accounts@.len()
            ==> crate::builder::accounts::is_valid_account(
            #[trigger] config.onchain_wallet_accounts@[i],
            config.network,
            master,
        )
}

/// The first thing that is wrong with what a node is built from, before anything is read.
pub open spec fn plan_error(config: Config, seed: Seq<u8>) -> Option<BuildError> {
    if announcement_error(config) is Some {
        announcement_error(config)
    } else {
        match crate::keys::master_key(crate::keys::is_main(config.network), seed) {
            Some(master) if accounts_are_valid(config, master) => None,
            _ => Some(BuildError::InvalidSeedBytes),
        }
    }
}

/// Checks what a node is built from, and derives its keys.
pub fn plan_wallet(
    config: &Config,
    chain_data_source_config: &Option<ChainDataSourceConfig>,
    seed_bytes: &[u8; 64],
) -> (plan: Result<WalletPlan, BuildError>)
    ensures
        match plan {
            Ok(plan) => {
                &&& plan_error(*config, seed_bytes@) is None
                &&& crate::keys::master_key(crate::keys::is_main(config.network), seed_bytes@)
                    == Some(plan.master.spec_bytes())
                &&& plan.accounts@ == crate::builder::accounts::distinct_accounts(
                    config.onchain_wallet_accounts@,
                )
                &&& plan.lookahead == crate::builder::options::lookahead_for(
                    *chain_data_source_config,
                )
            },
            Err(e) => plan_error(*config, seed_bytes@) == Some(e),
        },
{
    match check_announcement(config) {
        Err(e) => return Err(e),
        Ok(()) => {},
    }
    let master = match Xpriv::new_master(config.network, seed_bytes.as_slice()) {
        Some(master) => master,
        None => return Err(BuildError::InvalidSeedBytes),
    };
    match validate_configured_onchain_wallet_accounts(config, &master) {
        Err(e) => {
            assert(!accounts_are_valid(*config, master.spec_bytes()));
            Err(e)
        },
        Ok(accounts) => {
            let lookahead: u32 = derived_account_lookahead(chain_data_source_config);
            Ok(WalletPlan { master, accounts, lookahead })
        },
    }
}

/// The chain source of a node, with everything decided.
#[allow(inconsistent_fields)]
#[derive(Debug)]
pub enum ChainSourceSetup {
    Esplora {
        server_url: String,
        headers: Vec<(String, String)>,
        sync_config: EsploraSyncConfig,
    },
    Electrum { server_url: String, sync_config: ElectrumSyncConfig },
    BitcoindRest {
        rpc_host: String,
        rpc_port: u16,
        rpc_user: String,
        rpc_password: String,
        rest_client_config: BitcoindRestClientConfig,
    },
    BitcoindRpc { rpc_host: String, rpc_port: u16, rpc_user: String, rpc_password: String },
}

/// Whether a chain source is the configured one. The default is a public Esplora server.
pub open spec fn is_chain_source_setup(
    setup: ChainSourceSetup,
    chain: Option<ChainDataSourceConfig>,
) -> bool {
    match chain {
        Some(ChainDataSourceConfig::Esplora { server_url, headers, sync_config }) => setup == (
        ChainSourceSetup::Esplora {
            server_url,
            headers,
            sync_config: match sync_config {
                Some(sync_config) => sync_config,
                None => EsploraSyncConfig::spec_default(),
            },
        }),
        Some(ChainDataSourceConfig::Electrum { server_url, sync_config }) => setup == (
        ChainSourceSetup::Electrum {
            server_url,
            sync_config: match sync_config {
                Some(sync_config) => sync_config,
                None => ElectrumSyncConfig::spec_default(),
            },
        }),
        Some(
            ChainDataSourceConfig::Bitcoind {
                rpc_host,
                rpc_port,
                rpc_user,
                rpc_password,
                rest_client_config,
            },
        ) => setup == (match rest_client_config {
            Some(rest_client_config) => ChainSourceSetup::BitcoindRest {
                rpc_host,
                rpc_port,
                rpc_user,
                rpc_password,
                rest_client_config,
            },
            None => ChainSourceSetup::BitcoindRpc { rpc_host, rpc_port, rpc_user, rpc_password },
        }),
        None => setup matches ChainSourceSetup::Esplora { server_url, headers, sync_config }
            && server_url@ == crate::config::default_esplora_server_url()@ && headers@.len() == 0
            && sync_config == EsploraSyncConfig::spec_default(),
    }
}

/// The chain source of a node.
pub fn chain_source_setup(chain_data_source_config: Option<ChainDataSourceConfig>) -> (setup:
    ChainSourceSetup)
    ensures
        is_chain_source_setup(setup, chain_data_source_config),
{
    match chain_data_source_config {
        Some(ChainDataSourceConfig::Esplora { server_url, headers, sync_config }) => {
            let sync_config = match sync_config {
                Some(sync_config) => sync_config,
                None => EsploraSyncConfig::default(),
            };
            ChainSourceSetup::Esplora { server_url, headers, sync_config }
        },
        Some(ChainDataSourceConfig::Electrum { server_url, sync_config }) => {
            let sync_config = match sync_config {
                Some(sync_config) => sync_config,
                None => ElectrumSyncConfig::default(),
            };
            ChainSourceSetup::Electrum { server_url, sync_config }
        },
        Some(
            ChainDataSourceConfig::Bitcoind {
                rpc_host,
                rpc_port,
                rpc_user,
                rpc_password,
                rest_client_config,
            },
        ) => match rest_client_config {
            Some(rest_client_config) => ChainSourceSetup::BitcoindRest {
                rpc_host,
                rpc_port,
                rpc_user,
                rpc_password,
                rest_client_config,
            },
            None => ChainSourceSetup::BitcoindRpc { rpc_host, rpc_port, rpc_user, rpc_password },
        },
        None => ChainSourceSetup::Esplora {
            server_url: "https://blockstream.info/api".to_owned(),
            headers: Vec::new(),
            sync_config: EsploraSyncConfig::default(),
        },
    }
}

/// The way the node's channels are opened and used. A node that opens channels for others must
/// intercept what is sent to them, forward over channels that are not announced, and let the first
/// payment fill the channel; one that keeps payments for others must be able to hold them; one whose
/// payments are kept asks its peers to hold them.
pub open spec fn node_user_config(
    config: Config,
    serves_lsps2: bool,
    role: Option<AsyncPaymentsRole>,
) -> UserConfig {
    let start = crate::config::user_config_of(config);
    UserConfig {
        accept_intercept_htlcs: serves_lsps2 || start.accept_intercept_htlcs,
        accept_forwards_to_priv_channels: serves_lsps2 || role == Some(AsyncPaymentsRole::Server)
            || start.accept_forwards_to_priv_channels,
        max_inbound_htlc_value_in_flight_percent_of_channel: if serves_lsps2 {
            100
        } else {
            start.max_inbound_htlc_value_in_flight_percent_of_channel
        },
        enable_htlc_hold: role == Some(AsyncPaymentsRole::Server) || start.enable_htlc_hold,
        hold_outbound_htlcs_at_next_hop: role == Some(AsyncPaymentsRole::Client)
            || start.hold_outbound_htlcs_at_next_hop,
        ..start
    }
}

/// The way the node's channels are opened and used.
pub fn user_config(
    config: &Config,
    liquidity_source_config: &Option<LiquiditySourceConfig>,
    async_payments_role: Option<AsyncPaymentsRole>,
) -> (user_config: UserConfig)
    ensures
        user_config == node_user_config(
            *config,
            liquidity_source_config matches Some(lsc) && lsc.lsps2_service is Some,
            async_payments_role,
        ),
{
    let mut user_config = default_user_config(config);
    let serves_lsps2 = match liquidity_source_config {
        Some(lsc) => lsc.lsps2_service.is_some(),
        None => false,
    };
    if serves_lsps2 {
        user_config.accept_intercept_htlcs = true;
        user_config.accept_forwards_to_priv_channels = true;
        user_config.max_inbound_htlc_value_in_flight_percent_of_channel = 100;
    }
    match async_payments_role {
        Some(AsyncPaymentsRole::Server) => {
            user_config.accept_forwards_to_priv_channels = true;
            user_config.enable_htlc_hold = true;
        },
        Some(AsyncPaymentsRole::Client) => {
            user_config.hold_outbound_htlcs_at_next_hop = true;
        },
        None => {},
    }
    user_config
}

/// Whether the node keeps messages for peers that are offline: only a server of asynchronous payments
/// does.
pub fn keeps_messages(async_payments_role: Option<AsyncPaymentsRole>) -> (keeps: bool)
    ensures
        keeps == (async_payments_role == Some(AsyncPaymentsRole::Server)),
{
    matches!(async_payments_role, Some(AsyncPaymentsRole::Server))
}

/// The hash of the first block of a chain, as `lightning::chain::BestBlock::from_network` gives it.
pub uninterp spec fn genesis_hash(network: Network) -> Seq<u8>;

/// The first block of a chain.
///
/// Calls `lightning::chain::BestBlock::from_network`, which depends on the network alone and gives a
/// block of height zero.
#[verifier::external_body]
fn genesis_block(network: Network) -> (block: BestBlock)
    ensures
        block.height == 0,
        block.block_hash.0@ == genesis_hash(network),
{
    let network = match network {
        Network::Bitcoin => bitcoin::Network::Bitcoin,
        Network::Testnet => bitcoin::Network::Testnet,
        Network::Testnet4 => bitcoin::Network::Testnet4,
        Network::Signet => bitcoin::Network::Signet,
        Network::Regtest => bitcoin::Network::Regtest,
    };
    let block = lightning::chain::BestBlock::from_network(network);
    let hash = bitcoin::hashes::Hash::to_byte_array(block.block_hash);
    BestBlock { block_hash: BlockHash(hash), height: block.height }
}

/// The block that a new node starts from: the known tip, or else the first one.
pub fn first_best_block(network: Network, chain_tip: Option<BestBlock>) -> (block: BestBlock)
    ensures
        match chain_tip {
            Some(tip) => block == tip,
            None => block.height == 0 && block.block_hash.0@ == genesis_hash(network),
        },
{
    match chain_tip {
        Some(tip) => tip,
        None => genesis_block(network),
    }
}

/// The key of a remote store, and the key that logs in to it.
pub open spec fn is_vss_keys(keys: (Xpriv, Xpriv), network: Network, seed: Seq<u8>) -> bool {
    &&& crate::keys::hardened_child_key(network, seed, VSS_HARDENED_CHILD_INDEX) == Some(
        keys.0.spec_bytes(),
    )
    &&& crate::keys::derived_key(
        keys.0.spec_bytes(),
        seq![crate::keys::hardened(VSS_LNURL_AUTH_HARDENED_CHILD_INDEX)],
    ) == Some(keys.1.spec_bytes())
}

/// The key of a remote store.
pub fn vss_key(network: Network, seed_bytes: &[u8; 64]) -> (key: Result<Xpriv, BuildError>)
    ensures
        match key {
            Ok(key) => crate::keys::hardened_child_key(
                network,
                seed_bytes@,
                VSS_HARDENED_CHILD_INDEX,
            ) == Some(key.spec_bytes()),
            Err(e) => e == BuildError::InvalidSeedBytes && crate::keys::hardened_child_key(
                network,
                seed_bytes@,
                VSS_HARDENED_CHILD_INDEX,
            ) is None,
        },
{
    match derive_xprv(network, seed_bytes, VSS_HARDENED_CHILD_INDEX) {
        Some(key) => Ok(key),
        None => Err(BuildError::InvalidSeedBytes),
    }
}

/// The key of a remote store, and the key that logs in to it.
pub fn vss_keys(network: Network, seed_bytes: &[u8; 64]) -> (keys: Result<
    (Xpriv, Xpriv),
    BuildError,
>)
    ensures
        match keys {
            Ok(keys) => is_vss_keys(keys, network, seed_bytes@),
            Err(e) => match crate::keys::hardened_child_key(
                network,
                seed_bytes@,
                VSS_HARDENED_CHILD_INDEX,
            ) {
                None => e == BuildError::InvalidSeedBytes,
                Some(key) => e == BuildError::KVStoreSetupFailed && crate::keys::derived_key(
                    key,
                    seq![crate::keys::hardened(VSS_LNURL_AUTH_HARDENED_CHILD_INDEX)],
                ) is None,
            },
        },
{
    let key = match vss_key(network, seed_bytes) {
        Ok(key) => key,
        Err(e) => return Err(e),
    };
    let mut path: Vec<u32> = Vec::new();
    path.push(0x8000_0000 + VSS_LNURL_AUTH_HARDENED_CHILD_INDEX);
    assert(path@ =~= seq![crate::keys::hardened(VSS_LNURL_AUTH_HARDENED_CHILD_INDEX)]);
    match key.derive_priv(&path) {
        Some(auth_key) => Ok((key, auth_key)),
        None => Err(BuildError::KVStoreSetupFailed),
    }
}

/// The secret that liquidity promises are made with.
pub fn lsps_promise_secret(network: Network, seed_bytes: &[u8; 64]) -> (secret: Result<
    [u8; 32],
    BuildError,
>)
    ensures
        match crate::keys::hardened_child_key(network, seed_bytes@, LSPS_HARDENED_CHILD_INDEX) {
            Some(key) => secret matches Ok(secret) && secret@ == key.subrange(46, 78),
            None => secret == Err::<[u8; 32], BuildError>(BuildError::InvalidSeedBytes),
        },
{
    match derive_xprv(network, seed_bytes, LSPS_HARDENED_CHILD_INDEX) {
        Some(key) => Ok(key.secret_bytes()),
        None => Err(BuildError::InvalidSeedBytes),
    }
}

/// How a read that another task did ended.
pub enum TaskRead<T> {
    /// The task did not end as it should.
    TaskFailed,
    Read(Result<T, IoErrorKind>),
}

/// Where something that can be stored came from.
#[derive(Clone, Copy, Debug, PartialEq, Eq, Structural)]
pub enum Origin {
    Stored,
    New,
}

/// Where something comes from that the store may hold. What is missing is made anew; what cannot be
/// read, or not be decoded, is a failure.
pub open spec fn origin_of(read: Result<bool, IoErrorKind>) -> Result<Origin, BuildError> {
    match read {
        Ok(true) => Ok::<Origin, BuildError>(Origin::Stored),
        Err(IoErrorKind::NotFound) => Ok::<Origin, BuildError>(Origin::New),
        _ => Err::<Origin, BuildError>(BuildError::ReadFailed),
    }
}

/// Where something comes from that the store may hold. A successful read says whether it could be
/// decoded.
pub fn origin(read: Result<bool, IoErrorKind>) -> (origin: Result<Origin, BuildError>)
    ensures
        origin == origin_of(read),
{
    match read {
        Ok(decoded) => {
            if decoded {
                Ok(Origin::Stored)
            } else {
                Err(BuildError::ReadFailed)
            }
        },
        Err(IoErrorKind::NotFound) => Ok(Origin::New),
        Err(_) => Err(BuildError::ReadFailed),
    }
}

/// Where something comes from that another task looked for in the store.
pub open spec fn task_origin_of<T>(read: TaskRead<T>) -> Result<Origin, BuildError> {
    match read {
        TaskRead::Read(Ok(_)) => Ok::<Origin, BuildError>(Origin::Stored),
        TaskRead::Read(Err(IoErrorKind::NotFound)) => Ok::<Origin, BuildError>(Origin::New),
        _ => Err::<Origin, BuildError>(BuildError::ReadFailed),
    }
}

fn task_origin<T>(read: &TaskRead<T>) -> (origin: Result<Origin, BuildError>)
    ensures
        origin == task_origin_of(*read),
{
    match read {
        TaskRead::Read(Ok(_)) => Ok(Origin::Stored),
        TaskRead::Read(Err(IoErrorKind::NotFound)) => Ok(Origin::New),
        _ => Err(BuildError::ReadFailed),
    }
}

/// Where the graph of the network comes from.
#[derive(Clone, Copy, Debug, PartialEq, Eq, Structural)]
pub enum GraphSource {
    /// Nowhere yet.
    Unknown,
    LocalCache,
    Store,
    Empty,
}

/// How reading the channel manager ended.
#[derive(Clone, Copy, Debug, PartialEq, Eq, Structural)]
pub enum ManagerRead {
    /// The store gave none.
    NotRead,
    Decoded,
    /// It could be decoded, but not be used without risk.
    Dangerous,
    NotDecoded,
}

/// What a build has to do, beyond what every build does.
#[derive(Clone, Copy, Debug, PartialEq, Eq, Structural)]
pub struct BuildSettings {
    /// Channels are taken over.
    pub migrates_channels: bool,
    /// Gossip comes from the peer-to-peer network.
    pub gossips: bool,
    /// Liquidity services are used or offered.
    pub uses_liquidity: bool,
}

/// What a build has to do. Gossip comes from the peer-to-peer network unless another source is
/// configured.
pub fn build_settings(
    channel_data_migration: &Option<crate::builder::migration::ChannelDataMigration>,
    gossip_source_config: &Option<GossipSourceConfig>,
    liquidity_source_config: &Option<LiquiditySourceConfig>,
) -> (settings: BuildSettings)
    ensures
        settings == (BuildSettings {
            migrates_channels: channel_data_migration is Some,
            gossips: !(*gossip_source_config matches Some(GossipSourceConfig::RapidGossipSync(_))),
            uses_liquidity: liquidity_source_config is Some,
        }),
{
    BuildSettings {
        migrates_channels: channel_data_migration.is_some(),
        gossips: match gossip_source_config {
            Some(GossipSourceConfig::RapidGossipSync(_)) => false,
            _ => true,
        },
        uses_liquidity: liquidity_source_config.is_some(),
    }
}

/// What is to be done next.
pub enum BuildStage {
    /// Read the node metrics, the payments and the primary wallet.
    ReadStores,
    /// Set up the chain source.
    SetUpChainSource,
    /// Tell the primary wallet of the tip of the chain.
    ApplyTip,
    /// Build the further wallets.
    BuildAdditionalWallets,
    /// Ask for the time.
    ReadClock,
    /// Take over channels.
    MigrateChannels,
    /// Read the graph of the network from its local cache.
    ReadLocalGraph,
    /// Read it from the store.
    ReadStoredGraph,
    /// Read the channel monitors, the scorer and the external scores.
    ReadChannelData,
    /// Read the channel manager.
    ReadChannelManager,
    /// Watch the channels of the monitors.
    WatchMonitors,
    /// Store the node metrics, without the time of the last snapshot of the graph.
    WriteMetrics,
    /// Build the source of liquidity.
    BuildLiquiditySource,
    /// Ask for the time again.
    ReadPeerClock,
    /// Read the output sweeper, the event queue and the peers.
    ReadLateStores,
    /// Store the peers of channels that the peer store lacks.
    PersistMissingPeers,
    /// The build is over.
    Done(Result<(), BuildError>),
}

/// What came of a stage.
pub enum StageEvent {
    StoresRead {
        /// The time of the last snapshot of the graph, of the node metrics.
        metrics: TaskRead<Option<u32>>,
        /// Whether the payments could be read.
        payments: bool,
        /// `None` where the task that reads the wallet did not end as it should.
        wallet: Option<Result<(), BuildError>>,
    },
    ChainSourceReady(Option<BestBlock>),
    TipApplied(bool),
    AdditionalWalletsBuilt(Result<(), BuildError>),
    /// The seconds since the epoch, where the clock is not before it.
    Clock(Option<u64>),
    /// The same, asked for again. The peers are told in 32 bits.
    PeerClock(Option<u64>),
    Migrated(Result<(), BuildError>),
    /// The time of the snapshot that the cached graph has.
    LocalGraph(Result<u32, IoErrorKind>),
    StoredGraph(Result<(), IoErrorKind>),
    ChannelData {
        monitors: TaskRead<()>,
        scorer: Result<bool, IoErrorKind>,
        external_scores: Result<bool, IoErrorKind>,
    },
    ChannelManager(ManagerRead),
    /// Whether all channels are watched.
    Watched(bool),
    MetricsWritten(bool),
    LiquiditySource(Result<(), BuildError>),
    LateStores {
        sweeper: Result<bool, IoErrorKind>,
        event_queue: Result<bool, IoErrorKind>,
        peers: Result<bool, IoErrorKind>,
    },
    /// The missing peers were stored, as far as that was possible.
    MissingPeersPersisted,
}

/// What a build has found out.
pub struct Findings {
    /// The tip of the chain that the chain source knows.
    pub chain_tip: Option<BestBlock>,
    /// The time of the last snapshot of the graph, of the node metrics.
    pub latest_rgs_snapshot_timestamp: Option<u32>,
    pub metrics: Origin,
    pub graph: GraphSource,
    /// The time of the snapshot that the graph has.
    pub rgs_timestamp: u32,
    pub monitors: Origin,
    pub scorer: Origin,
    /// Whether the scores of others are merged into the scorer.
    pub merges_external_scores: bool,
    pub channel_manager: Origin,
    pub sweeper: Origin,
    pub event_queue: Origin,
    pub peers: Origin,
}

/// A build under way.
pub struct Build {
    pub stage: BuildStage,
    pub findings: Findings,
}

/// A build before its first stage.
pub open spec fn new_build() -> Build {
    Build {
        stage: BuildStage::ReadStores,
        findings: Findings {
            chain_tip: None,
            latest_rgs_snapshot_timestamp: None,
            metrics: Origin::New,
            graph: GraphSource::Unknown,
            rgs_timestamp: 0,
            monitors: Origin::New,
            scorer: Origin::New,
            merges_external_scores: false,
            channel_manager: Origin::New,
            sweeper: Origin::New,
            event_queue: Origin::New,
            peers: Origin::New,
        },
    }
}

/// What went well, or else an error.
pub open spec fn ok_or(ok: bool, e: BuildError) -> Result<(), BuildError> {
    if ok {
        Ok::<(), BuildError>(())
    } else {
        Err::<(), BuildError>(e)
    }
}

/// What is wrong with the first reads. The failure of the metrics comes first, then that of the
/// payments, then that of the wallet.
pub open spec fn check_stores(
    metrics: TaskRead<Option<u32>>,
    payments: bool,
    wallet: Option<Result<(), BuildError>>,
) -> Result<(), BuildError> {
    if task_origin_of(metrics) is Err || !payments {
        Err::<(), BuildError>(BuildError::ReadFailed)
    } else {
        match wallet {
            None => Err::<(), BuildError>(BuildError::WalletSetupFailed),
            Some(result) => result,
        }
    }
}

/// What is wrong with what came of a stage. Only what came of this stage counts.
pub open spec fn check_event(event: StageEvent) -> Result<(), BuildError> {
    match event {
        StageEvent::StoresRead { metrics, payments, wallet } => check_stores(
            metrics,
            payments,
            wallet,
        ),
        StageEvent::ChainSourceReady(_) => Ok(()),
        StageEvent::TipApplied(ok) => ok_or(ok, BuildError::WalletSetupFailed),
        StageEvent::AdditionalWalletsBuilt(result) => result,
        StageEvent::Clock(time) => ok_or(time is Some, BuildError::InvalidSystemTime),
        StageEvent::PeerClock(time) => ok_or(
            time matches Some(secs) && secs <= u32::MAX,
            BuildError::InvalidSystemTime,
        ),
        StageEvent::Migrated(result) => result,
        // A local cache that cannot be read is done without.
        StageEvent::LocalGraph(_) => Ok(()),
        StageEvent::StoredGraph(read) => ok_or(
            read is Ok || read == Err::<(), IoErrorKind>(IoErrorKind::NotFound),
            BuildError::ReadFailed,
        ),
        StageEvent::ChannelData { monitors, scorer, external_scores } => ok_or(
            task_origin_of(monitors) is Ok && origin_of(scorer) is Ok && origin_of(
                external_scores,
            ) is Ok,
            BuildError::ReadFailed,
        ),
        StageEvent::ChannelManager(read) => match read {
            ManagerRead::NotRead => Ok(()),
            ManagerRead::Decoded => Ok(()),
            ManagerRead::Dangerous => Err(BuildError::DangerousValue),
            ManagerRead::NotDecoded => Err(BuildError::ReadFailed),
        },
        StageEvent::Watched(ok) => ok_or(ok, BuildError::InvalidChannelMonitor),
        StageEvent::MetricsWritten(ok) => ok_or(ok, BuildError::WriteFailed),
        StageEvent::LiquiditySource(result) => result,
        StageEvent::LateStores { sweeper, event_queue, peers } => ok_or(
            origin_of(sweeper) is Ok && origin_of(event_queue) is Ok && origin_of(peers) is Ok,
            BuildError::ReadFailed,
        ),
        StageEvent::MissingPeersPersisted => Ok(()),
    }
}

/// Whether an event is what can come of a stage.
pub open spec fn answers(event: StageEvent, stage: BuildStage) -> bool {
    match stage {
        BuildStage::ReadStores => event is StoresRead,
        BuildStage::SetUpChainSource => event is ChainSourceReady,
        BuildStage::ApplyTip => event is TipApplied,
        BuildStage::BuildAdditionalWallets => event is AdditionalWalletsBuilt,
        BuildStage::ReadClock => event is Clock,
        BuildStage::MigrateChannels => event is Migrated,
        BuildStage::ReadLocalGraph => event is LocalGraph,
        BuildStage::ReadStoredGraph => event is StoredGraph,
        BuildStage::ReadChannelData => event is ChannelData,
        BuildStage::ReadChannelManager => event is ChannelManager,
        BuildStage::WatchMonitors => event is Watched,
        BuildStage::WriteMetrics => event is MetricsWritten,
        BuildStage::BuildLiquiditySource => event is LiquiditySource,
        BuildStage::ReadPeerClock => event is PeerClock,
        BuildStage::ReadLateStores => event is LateStores,
        BuildStage::PersistMissingPeers => event is MissingPeersPersisted,
        BuildStage::Done(_) => false,
    }
}

/// The stage that follows one that went well. Channels are taken over before anything else is read of
/// them; a tip is told to the wallet where the chain source knows one; the store is asked for the graph
/// where there is no local cache; the gossip source and the source of liquidity are set up as
/// configured.
pub open spec fn stage_after(event: StageEvent, settings: BuildSettings) -> BuildStage {
    match event {
        StageEvent::StoresRead { .. } => BuildStage::SetUpChainSource,
        StageEvent::ChainSourceReady(tip) => if tip is Some {
            BuildStage::ApplyTip
        } else {
            BuildStage::BuildAdditionalWallets
        },
        StageEvent::TipApplied(_) => BuildStage::BuildAdditionalWallets,
        StageEvent::AdditionalWalletsBuilt(_) => BuildStage::ReadClock,
        StageEvent::Clock(_) => if settings.migrates_channels {
            BuildStage::MigrateChannels
        } else {
            BuildStage::ReadLocalGraph
        },
        StageEvent::Migrated(_) => BuildStage::ReadLocalGraph,
        StageEvent::LocalGraph(read) => if read == Err::<u32, IoErrorKind>(IoErrorKind::NotFound) {
            BuildStage::ReadStoredGraph
        } else {
            BuildStage::ReadChannelData
        },
        StageEvent::StoredGraph(_) => BuildStage::ReadChannelData,
        StageEvent::ChannelData { .. } => BuildStage::ReadChannelManager,
        StageEvent::ChannelManager(_) => BuildStage::WatchMonitors,
        StageEvent::Watched(_) => if settings.gossips {
            BuildStage::WriteMetrics
        } else if settings.uses_liquidity {
            BuildStage::BuildLiquiditySource
        } else {
            BuildStage::ReadPeerClock
        },
        StageEvent::MetricsWritten(_) => if settings.uses_liquidity {
            BuildStage::BuildLiquiditySource
        } else {
            BuildStage::ReadPeerClock
        },
        StageEvent::LiquiditySource(_) => BuildStage::ReadPeerClock,
        StageEvent::PeerClock(_) => BuildStage::ReadLateStores,
        StageEvent::LateStores { .. } => BuildStage::PersistMissingPeers,
        StageEvent::MissingPeersPersisted => BuildStage::Done(Ok(())),
    }
}

/// What a build knows after a stage that went well. A graph that is not there, or a local cache that
/// cannot be read, is replaced by an empty graph without a time; the graph of the store has the time of
/// the node metrics; where gossip comes from the peer-to-peer network that time is forgotten.
pub open spec fn learn(findings: Findings, event: StageEvent) -> Findings {
    match event {
        StageEvent::StoresRead { metrics, .. } => Findings {
            metrics: task_origin_of(metrics)->Ok_0,
            latest_rgs_snapshot_timestamp: match metrics {
                TaskRead::Read(Ok(timestamp)) => timestamp,
                _ => None,
            },
            ..findings
        },
        StageEvent::ChainSourceReady(tip) => Findings { chain_tip: tip, ..findings },
        StageEvent::LocalGraph(read) => match read {
            Ok(timestamp) => Findings {
                graph: GraphSource::LocalCache,
                rgs_timestamp: timestamp,
                ..findings
            },
            Err(IoErrorKind::NotFound) => findings,
            Err(_) => Findings { graph: GraphSource::Empty, rgs_timestamp: 0, ..findings },
        },
        StageEvent::StoredGraph(read) => if read is Ok {
            Findings {
                graph: GraphSource::Store,
                rgs_timestamp: match findings.latest_rgs_snapshot_timestamp {
                    Some(timestamp) => timestamp,
                    None => 0,
                },
                ..findings
            }
        } else {
            Findings { graph: GraphSource::Empty, rgs_timestamp: 0, ..findings }
        },
        StageEvent::ChannelData { monitors, scorer, external_scores } => Findings {
            monitors: task_origin_of(monitors)->Ok_0,
            scorer: origin_of(scorer)->Ok_0,
            merges_external_scores: origin_of(external_scores)->Ok_0 == Origin::Stored,
            ..findings
        },
        StageEvent::ChannelManager(read) => Findings {
            channel_manager: if read == ManagerRead::Decoded {
                Origin::Stored
            } else {
                Origin::New
            },
            ..findings
        },
        StageEvent::MetricsWritten(_) => Findings {
            latest_rgs_snapshot_timestamp: None,
            ..findings
        },
        StageEvent::LateStores { sweeper, event_queue, peers } => Findings {
            sweeper: origin_of(sweeper)->Ok_0,
            event_queue: origin_of(event_queue)->Ok_0,
            peers: origin_of(peers)->Ok_0,
            ..findings
        },
        _ => findings,
    }
}

/// The build after a stage. The first failure ends it; what came of another stage changes nothing.
pub open spec fn next_build(build: Build, event: StageEvent, settings: BuildSettings) -> Build {
    if !answers(event, build.stage) {
        build
    } else {
        match check_event(event) {
            Err(e) => Build { stage: BuildStage::Done(Err(e)), ..build },
            Ok(()) => Build {
                stage: stage_after(event, settings),
                findings: learn(build.findings, event),
            },
        }
    }
}

fn checked(ok: bool, e: BuildError) -> (result: Result<(), BuildError>)
    ensures
        result == ok_or(ok, e),
{
    if ok {
        Ok(())
    } else {
        Err(e)
    }
}

impl StageEvent {
    /// What is wrong with what came of a stage.
    pub fn check(&self) -> (result: Result<(), BuildError>)
        ensures
            result == check_event(*self),
    {
        match self {
            StageEvent::StoresRead { metrics, payments, wallet } => {
                if task_origin(metrics).is_err() || !*payments {
                    return Err(BuildError::ReadFailed);
                }
                match wallet {
                    None => Err(BuildError::WalletSetupFailed),
                    Some(result) => *result,
                }
            },
            StageEvent::ChainSourceReady(_) => Ok(()),
            StageEvent::TipApplied(ok) => checked(*ok, BuildError::WalletSetupFailed),
            StageEvent::AdditionalWalletsBuilt(result) => *result,
            StageEvent::Clock(time) => checked(time.is_some(), BuildError::InvalidSystemTime),
            StageEvent::PeerClock(time) => match time {
                Some(secs) => checked(*secs <= u32::MAX as u64, BuildError::InvalidSystemTime),
                None => Err(BuildError::InvalidSystemTime),
            },
            StageEvent::Migrated(result) => *result,
            StageEvent::LocalGraph(_) => Ok(()),
            StageEvent::StoredGraph(read) => match read {
                Ok(()) => Ok(()),
                Err(IoErrorKind::NotFound) => Ok(()),
                Err(_) => Err(BuildError::ReadFailed),
            },
            StageEvent::ChannelData { monitors, scorer, external_scores } => checked(
                task_origin(monitors).is_ok() && origin(*scorer).is_ok() && origin(
                    *external_scores,
                ).is_ok(),
                BuildError::ReadFailed,
            ),
            StageEvent::ChannelManager(read) => match read {
                ManagerRead::NotRead => Ok(()),
                ManagerRead::Decoded => Ok(()),
                ManagerRead::Dangerous => Err(BuildError::DangerousValue),
                ManagerRead::NotDecoded => Err(BuildError::ReadFailed),
            },
            StageEvent::Watched(ok) => checked(*ok, BuildError::InvalidChannelMonitor),
            StageEvent::MetricsWritten(ok) => checked(*ok, BuildError::WriteFailed),
            StageEvent::LiquiditySource(result) => *result,
            StageEvent::LateStores { sweeper, event_queue, peers } => checked(
                origin(*sweeper).is_ok() && origin(*event_queue).is_ok() && origin(*peers).is_ok(),
                BuildError::ReadFailed,
            ),
            StageEvent::MissingPeersPersisted => Ok(()),
        }
    }

    /// Whether this is what can come of a stage.
    pub fn is_of(&self, stage: &BuildStage) -> (of: bool)
        ensures
            of == answers(*self, *stage),
    {
        match stage {
            BuildStage::ReadStores => matches!(self, StageEvent::StoresRead { .. }),
            BuildStage::SetUpChainSource => matches!(self, StageEvent::ChainSourceReady(_)),
            BuildStage::ApplyTip => matches!(self, StageEvent::TipApplied(_)),
            BuildStage::BuildAdditionalWallets => matches!(
                self,
                StageEvent::AdditionalWalletsBuilt(_)
            ),
            BuildStage::ReadClock => matches!(self, StageEvent::Clock(_)),
            BuildStage::MigrateChannels => matches!(self, StageEvent::Migrated(_)),
            BuildStage::ReadLocalGraph => matches!(self, StageEvent::LocalGraph(_)),
            BuildStage::ReadStoredGraph => matches!(self, StageEvent::StoredGraph(_)),
            BuildStage::ReadChannelData => matches!(self, StageEvent::ChannelData { .. }),
            BuildStage::ReadChannelManager => matches!(self, StageEvent::ChannelManager(_)),
            BuildStage::WatchMonitors => matches!(self, StageEvent::Watched(_)),
            BuildStage::WriteMetrics => matches!(self, StageEvent::MetricsWritten(_)),
            BuildStage::BuildLiquiditySource => matches!(self, StageEvent::LiquiditySource(_)),
            BuildStage::ReadPeerClock => matches!(self, StageEvent::PeerClock(_)),
            BuildStage::ReadLateStores => matches!(self, StageEvent::LateStores { .. }),
            BuildStage::PersistMissingPeers => matches!(self, StageEvent::MissingPeersPersisted),
            BuildStage::Done(_) => false,
        }
    }

    /// The stage that follows one that went well.
    pub fn following_stage(&self, settings: BuildSettings) -> (stage: BuildStage)
        ensures
            stage == stage_after(*self, settings),
    {
        match self {
            StageEvent::StoresRead { .. } => BuildStage::SetUpChainSource,
            StageEvent::ChainSourceReady(tip) => {
                if tip.is_some() {
                    BuildStage::ApplyTip
                } else {
                    BuildStage::BuildAdditionalWallets
                }
            },
            StageEvent::TipApplied(_) => BuildStage::BuildAdditionalWallets,
            StageEvent::AdditionalWalletsBuilt(_) => BuildStage::ReadClock,
            StageEvent::Clock(_) => {
                if settings.migrates_channels {
                    BuildStage::MigrateChannels
                } else {
                    BuildStage::ReadLocalGraph
                }
            },
            StageEvent::Migrated(_) => BuildStage::ReadLocalGraph,
            StageEvent::LocalGraph(read) => match read {
                Err(IoErrorKind::NotFound) => BuildStage::ReadStoredGraph,
                _ => BuildStage::ReadChannelData,
            },
            StageEvent::StoredGraph(_) => BuildStage::ReadChannelData,
            StageEvent::ChannelData { .. } => BuildStage::ReadChannelManager,
            StageEvent::ChannelManager(_) => BuildStage::WatchMonitors,
            StageEvent::Watched(_) => {
                if settings.gossips {
                    BuildStage::WriteMetrics
                } else if settings.uses_liquidity {
                    BuildStage::BuildLiquiditySource
                } else {
                    BuildStage::ReadPeerClock
                }
            },
            StageEvent::MetricsWritten(_) => {
                if settings.uses_liquidity {
                    BuildStage::BuildLiquiditySource
                } else {
                    BuildStage::ReadPeerClock
                }
            },
            StageEvent::LiquiditySource(_) => BuildStage::ReadPeerClock,
            StageEvent::PeerClock(_) => BuildStage::ReadLateStores,
            StageEvent::LateStores { .. } => BuildStage::PersistMissingPeers,
            StageEvent::MissingPeersPersisted => BuildStage::Done(Ok(())),
        }
    }
}

fn stored(origin: Result<Origin, BuildError>) -> (known: Origin)
    requires
        origin is Ok,
    ensures
        known == origin->Ok_0,
{
    match origin {
        Ok(origin) => origin,
        Err(_) => Origin::New,
    }
}

impl Findings {
    /// What a build knows after a stage that went well.
    fn learned(self, event: StageEvent) -> (findings: Self)
        requires
            check_event(event) is Ok,
        ensures
            findings == learn(self, event),
    {
        let mut findings = self;
        match event {
            StageEvent::StoresRead { metrics, .. } => {
                findings.metrics = stored(task_origin(&metrics));
                findings.latest_rgs_snapshot_timestamp = match metrics {
                    TaskRead::Read(Ok(timestamp)) => timestamp,
                    _ => None,
                };
            },
            StageEvent::ChainSourceReady(tip) => {
                findings.chain_tip = tip;
            },
            StageEvent::LocalGraph(read) => match read {
                Ok(timestamp) => {
                    findings.graph = GraphSource::LocalCache;
                    findings.rgs_timestamp = timestamp;
                },
                Err(IoErrorKind::NotFound) => {},
                Err(_) => {
                    findings.graph = GraphSource::Empty;
                    findings.rgs_timestamp = 0;
                },
            },
            StageEvent::StoredGraph(read) => {
                if read.is_ok() {
                    findings.graph = GraphSource::Store;
                    findings.rgs_timestamp = match findings.latest_rgs_snapshot_timestamp {
                        Some(timestamp) => timestamp,
                        None => 0,
                    };
                } else {
                    findings.graph = GraphSource::Empty;
                    findings.rgs_timestamp = 0;
                }
            },
            StageEvent::ChannelData { monitors, scorer, external_scores } => {
                findings.monitors = stored(task_origin(&monitors));
                findings.scorer = stored(origin(scorer));
                findings.merges_external_scores = stored(origin(external_scores))
                    == Origin::Stored;
            },
            StageEvent::ChannelManager(read) => {
                findings.channel_manager = if read == ManagerRead::Decoded {
                    Origin::Stored
                } else {
                    Origin::New
                };
            },
            StageEvent::MetricsWritten(_) => {
                findings.latest_rgs_snapshot_timestamp = None;
            },
            StageEvent::LateStores { sweeper, event_queue, peers } => {
                findings.sweeper = stored(origin(sweeper));
                findings.event_queue = stored(origin(event_queue));
                findings.peers = stored(origin(peers));
            },
            _ => {},
        }
        findings
    }
}

impl Build {
    /// A build before its first stage.
    pub fn new() -> (build: Self)
        ensures
            build == new_build(),
    {
        Build {
            stage: BuildStage::ReadStores,
            findings: Findings {
                chain_tip: None,
                latest_rgs_snapshot_timestamp: None,
                metrics: Origin::New,
                graph: GraphSource::Unknown,
                rgs_timestamp: 0,
                monitors: Origin::New,
                scorer: Origin::New,
                merges_external_scores: false,
                channel_manager: Origin::New,
                sweeper: Origin::New,
                event_queue: Origin::New,
                peers: Origin::New,
            },
        }
    }

    /// The build after a stage.
    pub fn after_stage(self, event: StageEvent, settings: BuildSettings) -> (build: Self)
        ensures
            build == next_build(self, event, settings),
    {
        if !event.is_of(&self.stage) {
            return self;
        }
        match event.check() {
            Err(e) => Build { stage: BuildStage::Done(Err(e)), findings: self.findings },
            Ok(()) => {
                let stage = event.following_stage(settings);
                let findings = self.findings.learned(event);
                Build { stage, findings }
            },
        }
    }
}

/// How many stages can still follow one.
pub open spec fn stages_left(stage: BuildStage) -> nat {
    match stage {
        BuildStage::ReadStores => 16,
        BuildStage::SetUpChainSource => 15,
        BuildStage::ApplyTip => 14,
        BuildStage::BuildAdditionalWallets => 13,
        BuildStage::ReadClock => 12,
        BuildStage::MigrateChannels => 11,
        BuildStage::ReadLocalGraph => 10,
        BuildStage::ReadStoredGraph => 9,
        BuildStage::ReadChannelData => 8,
        BuildStage::ReadChannelManager => 7,
        BuildStage::WatchMonitors => 6,
        BuildStage::WriteMetrics => 5,
        BuildStage::BuildLiquiditySource => 4,
        BuildStage::ReadPeerClock => 3,
        BuildStage::ReadLateStores => 2,
        BuildStage::PersistMissingPeers => 1,
        BuildStage::Done(_) => 0,
    }
}

/// A build goes through its stages in order, none of them twice, and so it ends.
pub proof fn law_a_build_ends(build: Build, event: StageEvent, settings: BuildSettings)
    ensures
        answers(event, build.stage) ==> stages_left(next_build(build, event, settings).stage)
            < stages_left(build.stage),
        !answers(event, build.stage) ==> next_build(build, event, settings) == build,
{
}

/// What a build knows of the graph: nothing at first, something once it is past reading it, and an empty
/// graph has no time, so that the whole graph is asked for.
pub open spec fn graph_is_coherent(build: Build) -> bool {
    let known = build.findings.graph != GraphSource::Unknown;
    &&& build.findings.graph == GraphSource::Empty || !known ==> build.findings.rgs_timestamp == 0
    &&& 0 < stages_left(build.stage) <= 8 ==> known
    &&& build.stage == BuildStage::Done(Ok(())) ==> known
}

/// A graph is never combined with the time of another one: where it is empty, there is no time, and a
/// build cannot succeed without a graph.
pub proof fn law_the_graph_goes_with_its_time(
    build: Build,
    event: StageEvent,
    settings: BuildSettings,
)
    requires
        graph_is_coherent(build),
    ensures
        graph_is_coherent(new_build()),
        graph_is_coherent(next_build(build, event, settings)),
{
}

/// Channel data that would be dangerous to use end the build, and nothing else that comes of reading the
/// channel manager ends it that way.
pub proof fn law_dangerous_channel_data_end_the_build(
    build: Build,
    read: ManagerRead,
    settings: BuildSettings,
)
    requires
        build.stage is ReadChannelManager,
    ensures
        (next_build(build, StageEvent::ChannelManager(read), settings).stage == BuildStage::Done(
            Err(BuildError::DangerousValue),
        )) == (read == ManagerRead::Dangerous),
{
}

/// A configured Esplora server is used as it is configured: at its address, with its headers, and with
/// the configured way of syncing, the defaults standing in only where none was given. Two configurations
/// that differ give two setups that differ.
pub proof fn law_a_configured_esplora_server_is_used(
    setup: ChainSourceSetup,
    server_url: String,
    headers: Vec<(String, String)>,
    sync_config: Option<EsploraSyncConfig>,
)
    requires
        is_chain_source_setup(
            setup,
            Some(ChainDataSourceConfig::Esplora { server_url, headers, sync_config }),
        ),
    ensures
        setup is Esplora,
        setup->Esplora_server_url == server_url,
        setup->headers == headers,
        sync_config matches Some(c) ==> setup->Esplora_sync_config == c,
        sync_config is None ==> (setup->Esplora_sync_config.background_sync_config matches Some(b)
            && b.onchain_wallet_sync_interval_secs == 80 && b.lightning_wallet_sync_interval_secs
            == 30 && b.fee_rate_cache_update_interval_secs == 60 * 10),
{
}

/// A configured Electrum server is used as it is configured, the defaults standing in only where no way of
/// syncing was given.
pub proof fn law_a_configured_electrum_server_is_used(
    setup: ChainSourceSetup,
    server_url: String,
    sync_config: Option<ElectrumSyncConfig>,
)
    requires
        is_chain_source_setup(
            setup,
            Some(ChainDataSourceConfig::Electrum { server_url, sync_config }),
        ),
    ensures
        setup is Electrum,
        setup->Electrum_server_url == server_url,
        sync_config matches Some(c) ==> setup->Electrum_sync_config == c,
        sync_config is None ==> setup->Electrum_sync_config == ElectrumSyncConfig::spec_default(),
{
}

/// A configured Bitcoin Core node is called at its host and port with its credentials, over REST exactly
/// where that is configured, with just that configuration.
pub proof fn law_a_configured_bitcoind_is_used(
    setup: ChainSourceSetup,
    rpc_host: String,
    rpc_port: u16,
    rpc_user: String,
    rpc_password: String,
    rest_client_config: Option<BitcoindRestClientConfig>,
)
    requires
        is_chain_source_setup(
            setup,
            Some(
                ChainDataSourceConfig::Bitcoind {
                    rpc_host,
                    rpc_port,
                    rpc_user,
                    rpc_password,
                    rest_client_config,
                },
            ),
        ),
    ensures
        setup is BitcoindRest <==> rest_client_config is Some,
        setup is BitcoindRpc <==> rest_client_config is None,
        setup matches ChainSourceSetup::BitcoindRest {
            rpc_host: h,
            rpc_port: p,
            rpc_user: u,
            rpc_password: w,
            rest_client_config: r,
        } ==> (h, p, u, w) == (rpc_host, rpc_port, rpc_user, rpc_password) && Some(r)
            == rest_client_config,
        setup matches ChainSourceSetup::BitcoindRpc {
            rpc_host: h,
            rpc_port: p,
            rpc_user: u,
            rpc_password: w,
        } ==> (h, p, u, w) == (rpc_host, rpc_port, rpc_user, rpc_password),
{
}

/// Without a configured chain source a public Esplora server is used, without headers and with the
/// default way of syncing.
pub proof fn law_the_default_chain_source_is_public(setup: ChainSourceSetup)
    requires
        is_chain_source_setup(setup, None),
    ensures
        setup is Esplora,
        setup->Esplora_server_url@ == "https://blockstream.info/api"@,
        setup->headers@.len() == 0,
        setup->Esplora_sync_config == EsploraSyncConfig::spec_default(),
{
}

/// An announcement is in order exactly if nothing is announced at all, or there are both an alias and
/// listening addresses. What is reported missing is missing: the alias where addresses are announced and
/// listened at without one, the listening addresses otherwise.
pub proof fn law_announcements_are_complete(config: Config)
    ensures
        ({
            let listens = config.listening_addresses matches Some(addrs) && addrs@.len() > 0;
            let wants = config.announcement_addresses is Some || config.node_alias is Some;
            &&& announcement_error(config) is None <==> !wants || (config.node_alias is Some
                && listens)
            &&& announcement_error(config) == Some(BuildError::InvalidNodeAlias)
                <==> config.announcement_addresses is Some && config.node_alias is None && listens
            &&& announcement_error(config) == Some(BuildError::InvalidListeningAddresses) <==> wants
                && !listens
        }),
{
}

/// A plan fails for the announcement first. Then it fails exactly if the seed gives no master key, or some
/// configured account is not what the seed says, and always for the seed.
pub proof fn law_plans_fail_for_a_reason(config: Config, seed: Seq<u8>)
    ensures
        announcement_error(config) is Some ==> plan_error(config, seed) == announcement_error(
            config,
        ),
        announcement_error(config) is None ==> {
            let master = crate::keys::master_key(config.network == Network::Bitcoin, seed);
            &&& plan_error(config, seed) is None <==> (master matches Some(m) && forall|i: int|
                0 <= i < config.onchain_wallet_accounts@.len()
                    ==> crate::builder::accounts::is_valid_account(
                    #[trigger] config.onchain_wallet_accounts@[i],
                    config.network,
                    m,
                ))
            &&& plan_error(config, seed) matches Some(e) ==> e == BuildError::InvalidSeedBytes
        },
{
}

/// What offering and keeping payments for others means for the channels: a node that sells channels
/// intercepts, forwards over channels that are not announced and lets the first payment fill a channel; a
/// node that keeps payments forwards over such channels and holds; a node whose payments are kept asks for
/// that. Nothing else hangs on either, and without either the channels are as configured.
pub proof fn law_services_change_only_what_they_need(
    config: Config,
    serves_lsps2: bool,
    role: Option<AsyncPaymentsRole>,
)
    ensures
        ({
            let plain = crate::config::user_config_of(config);
            let user = node_user_config(config, serves_lsps2, role);
            let server = role == Some(AsyncPaymentsRole::Server);
            let client = role == Some(AsyncPaymentsRole::Client);
            &&& serves_lsps2 ==> user.accept_intercept_htlcs
                && user.accept_forwards_to_priv_channels
                && user.max_inbound_htlc_value_in_flight_percent_of_channel == 100
            &&& server ==> user.accept_forwards_to_priv_channels && user.enable_htlc_hold
            &&& client ==> user.hold_outbound_htlcs_at_next_hop
            &&& !serves_lsps2 ==> user.accept_intercept_htlcs == plain.accept_intercept_htlcs
                && user.max_inbound_htlc_value_in_flight_percent_of_channel
                == plain.max_inbound_htlc_value_in_flight_percent_of_channel
            &&& !serves_lsps2 && !server ==> user.accept_forwards_to_priv_channels
                == plain.accept_forwards_to_priv_channels
            &&& !server ==> user.enable_htlc_hold == plain.enable_htlc_hold
            &&& !client ==> user.hold_outbound_htlcs_at_next_hop
                == plain.hold_outbound_htlcs_at_next_hop
            &&& user.manually_accept_inbound_channels == plain.manually_accept_inbound_channels
            &&& user.reject_inbound_splices == plain.reject_inbound_splices
            &&& user.announce_for_forwarding == plain.announce_for_forwarding
            &&& user.negotiate_anchors_zero_fee_htlc_tx == plain.negotiate_anchors_zero_fee_htlc_tx
            &&& user.force_announced_channel_preference == plain.force_announced_channel_preference
            &&& !serves_lsps2 && role is None ==> user == plain
        }),
{
}

/// What the store holds is used, and what it does not hold is made anew. What is there and cannot be read
/// or decoded is neither: it fails the build.
pub proof fn law_unreadable_data_is_never_replaced<T>(kind: IoErrorKind, value: T)
    ensures
        origin_of(Ok(true)) == Ok::<Origin, BuildError>(Origin::Stored),
        origin_of(Ok(false)) == Err::<Origin, BuildError>(BuildError::ReadFailed),
        origin_of(Err(kind)) == Ok::<Origin, BuildError>(Origin::New) <==> kind
            == IoErrorKind::NotFound,
        origin_of(Err(kind)) == Err::<Origin, BuildError>(BuildError::ReadFailed) <==> kind
            != IoErrorKind::NotFound,
        task_origin_of(TaskRead::Read(Ok(value))) == Ok::<Origin, BuildError>(Origin::Stored),
        task_origin_of::<T>(TaskRead::TaskFailed) == Err::<Origin, BuildError>(
            BuildError::ReadFailed,
        ),
        task_origin_of::<T>(TaskRead::Read(Err(kind))) == Ok::<Origin, BuildError>(Origin::New)
            <==> kind == IoErrorKind::NotFound,
        task_origin_of::<T>(TaskRead::Read(Err(kind))) == Err::<Origin, BuildError>(
            BuildError::ReadFailed,
        ) <==> kind != IoErrorKind::NotFound,
{
}

/// A build begins with the stores, knowing nothing.
pub proof fn law_a_build_begins_with_nothing()
    ensures
        new_build().stage is ReadStores,
        new_build().findings.chain_tip is None,
        new_build().findings.latest_rgs_snapshot_timestamp is None,
        new_build().findings.graph == GraphSource::Unknown,
        new_build().findings.rgs_timestamp == 0,
        !new_build().findings.merges_external_scores,
        new_build().findings.metrics == Origin::New,
        new_build().findings.monitors == Origin::New,
        new_build().findings.scorer == Origin::New,
        new_build().findings.channel_manager == Origin::New,
        new_build().findings.sweeper == Origin::New,
        new_build().findings.event_queue == Origin::New,
        new_build().findings.peers == Origin::New,
{
}

/// The first half of a build: the stores, the chain source, the tip where one is known, the further
/// wallets, the clock, and channels where any are taken over. A failure ends the build as itself.
pub proof fn law_the_wallets_come_first(
    build: Build,
    settings: BuildSettings,
    tip: Option<BestBlock>,
    time: Option<u64>,
    ok: bool,
    result: Result<(), BuildError>,
    timestamp: Option<u32>,
    kind: IoErrorKind,
)
    ensures
        ({
            let wallet = Some(result);
            let read = |metrics: TaskRead<Option<u32>>, payments: bool, wallet: Option<
                Result<(), BuildError>,
            >| next_build(build, StageEvent::StoresRead { metrics, payments, wallet }, settings);
            let good = TaskRead::Read(Ok(timestamp));
            let failed = |after: Build, e: BuildError| after.stage == BuildStage::Done(Err(e));
            &&& build.stage is ReadStores ==> {
                &&& result is Ok ==> read(good, true, wallet).stage is SetUpChainSource && read(
                    good,
                    true,
                    wallet,
                ).findings.latest_rgs_snapshot_timestamp == timestamp && read(
                    good,
                    true,
                    wallet,
                ).findings.metrics == Origin::Stored
                &&& result matches Err(e) ==> failed(read(good, true, wallet), e)
                &&& failed(read(good, true, None), BuildError::WalletSetupFailed)
                &&& failed(read(good, false, wallet), BuildError::ReadFailed)
                &&& failed(read(TaskRead::TaskFailed, true, wallet), BuildError::ReadFailed)
                &&& kind != IoErrorKind::NotFound ==> failed(
                    read(TaskRead::Read(Err(kind)), true, wallet),
                    BuildError::ReadFailed,
                )
                &&& result is Ok ==> read(
                    TaskRead::Read(Err(IoErrorKind::NotFound)),
                    true,
                    wallet,
                ).stage is SetUpChainSource && read(
                    TaskRead::Read(Err(IoErrorKind::NotFound)),
                    true,
                    wallet,
                ).findings.metrics == Origin::New
            }
            &&& build.stage is SetUpChainSource ==> {
                let after = next_build(build, StageEvent::ChainSourceReady(tip), settings);
                &&& after.findings.chain_tip == tip
                &&& tip is Some ==> after.stage is ApplyTip
                &&& tip is None ==> after.stage is BuildAdditionalWallets
            }
            &&& build.stage is ApplyTip ==> {
                let after = next_build(build, StageEvent::TipApplied(ok), settings);
                &&& ok ==> after.stage is BuildAdditionalWallets
                &&& !ok ==> failed(after, BuildError::WalletSetupFailed)
            }
            &&& build.stage is BuildAdditionalWallets ==> {
                let after = next_build(build, StageEvent::AdditionalWalletsBuilt(result), settings);
                &&& result is Ok ==> after.stage is ReadClock
                &&& result matches Err(e) ==> failed(after, e)
            }
            &&& build.stage is ReadClock ==> {
                let after = next_build(build, StageEvent::Clock(time), settings);
                &&& time is None ==> failed(after, BuildError::InvalidSystemTime)
                &&& time is Some && settings.migrates_channels ==> after.stage is MigrateChannels
                &&& time is Some && !settings.migrates_channels ==> after.stage is ReadLocalGraph
            }
            &&& build.stage is MigrateChannels ==> {
                let after = next_build(build, StageEvent::Migrated(result), settings);
                &&& result is Ok ==> after.stage is ReadLocalGraph
                &&& result matches Err(e) ==> failed(after, e)
            }
        }),
{
}

/// The graph comes from the local cache with its time. Where there is no cache the store is asked, and its
/// graph has the time of the node metrics. Where there is neither, or the cache cannot be read, the graph
/// is empty; a graph in the store that cannot be read ends the build.
pub proof fn law_where_the_graph_comes_from(
    build: Build,
    settings: BuildSettings,
    timestamp: u32,
    kind: IoErrorKind,
)
    ensures
        build.stage is ReadLocalGraph ==> {
            let cached = next_build(build, StageEvent::LocalGraph(Ok(timestamp)), settings);
            let missing = next_build(
                build,
                StageEvent::LocalGraph(Err(IoErrorKind::NotFound)),
                settings,
            );
            let broken = next_build(build, StageEvent::LocalGraph(Err(kind)), settings);
            &&& cached.stage is ReadChannelData && cached.findings.graph == GraphSource::LocalCache
                && cached.findings.rgs_timestamp == timestamp
            &&& missing.stage is ReadStoredGraph && missing.findings == build.findings
            &&& kind != IoErrorKind::NotFound ==> broken.stage is ReadChannelData
                && broken.findings.graph == GraphSource::Empty && broken.findings.rgs_timestamp == 0
        },
        build.stage is ReadStoredGraph ==> {
            let found = next_build(build, StageEvent::StoredGraph(Ok(())), settings);
            let missing = next_build(
                build,
                StageEvent::StoredGraph(Err(IoErrorKind::NotFound)),
                settings,
            );
            let broken = next_build(build, StageEvent::StoredGraph(Err(kind)), settings);
            &&& found.stage is ReadChannelData && found.findings.graph == GraphSource::Store
                && found.findings.rgs_timestamp
                == build.findings.latest_rgs_snapshot_timestamp.unwrap_or(0u32)
            &&& missing.stage is ReadChannelData && missing.findings.graph == GraphSource::Empty
                && missing.findings.rgs_timestamp == 0
            &&& kind != IoErrorKind::NotFound ==> broken.stage == BuildStage::Done(
                Err(BuildError::ReadFailed),
            )
        },
{
}

/// The second half of a build: the channel data, the channel manager, the watched channels, the node
/// metrics where gossip comes from peers, the source of liquidity where one is configured, the clock
/// again, the late stores and the peers that are missing. Only then is it done.
pub proof fn law_the_channels_come_last(
    build: Build,
    settings: BuildSettings,
    time: Option<u64>,
    ok: bool,
    result: Result<(), BuildError>,
    event: StageEvent,
)
    ensures
        ({
            let after = next_build(build, event, settings);
            let failed = |e: BuildError| after.stage == BuildStage::Done(Err(e));
            let past_gossip = if settings.uses_liquidity {
                after.stage is BuildLiquiditySource
            } else {
                after.stage is ReadPeerClock
            };
            &&& build.stage is ReadChannelData ==> (event matches StageEvent::ChannelData {
                monitors,
                scorer,
                external_scores,
            } ==> {
                let monitors_fail = !(monitors matches TaskRead::Read(Ok(_))) && !(monitors matches
                    TaskRead::Read(Err(IoErrorKind::NotFound)));
                let others_fail = origin_of(scorer) is Err || origin_of(external_scores) is Err;
                &&& monitors_fail || others_fail ==> failed(BuildError::ReadFailed)
                &&& !monitors_fail && !others_fail ==> after.stage is ReadChannelManager && (
                after.findings.monitors == Origin::Stored <==> monitors is Read && monitors->Read_0
                    is Ok) && (after.findings.scorer == Origin::Stored <==> scorer == Ok::<
                    bool,
                    IoErrorKind,
                >(true)) && (after.findings.merges_external_scores <==> external_scores == Ok::<
                    bool,
                    IoErrorKind,
                >(true))
            })
            &&& build.stage is ReadChannelManager ==> (event matches StageEvent::ChannelManager(read)
                ==> {
                &&& read == ManagerRead::NotDecoded ==> failed(BuildError::ReadFailed)
                &&& read == ManagerRead::Dangerous ==> failed(BuildError::DangerousValue)
                &&& read == ManagerRead::NotRead ==> after.stage is WatchMonitors
                    && after.findings.channel_manager == Origin::New
                &&& read == ManagerRead::Decoded ==> after.stage is WatchMonitors
                    && after.findings.channel_manager == Origin::Stored
            })
            &&& build.stage is WatchMonitors && event == StageEvent::Watched(ok) ==> {
                &&& !ok ==> failed(BuildError::InvalidChannelMonitor)
                &&& ok && settings.gossips ==> after.stage is WriteMetrics
                &&& ok && !settings.gossips ==> past_gossip
            }
            &&& build.stage is WriteMetrics && event == StageEvent::MetricsWritten(ok) ==> {
                &&& !ok ==> failed(BuildError::WriteFailed)
                &&& ok ==> past_gossip && after.findings.latest_rgs_snapshot_timestamp is None
            }
            &&& build.stage is BuildLiquiditySource && event == StageEvent::LiquiditySource(result)
                ==> {
                &&& result matches Err(e) ==> failed(e)
                &&& result is Ok ==> after.stage is ReadPeerClock
            }
            &&& build.stage is ReadPeerClock && event == StageEvent::PeerClock(time) ==> {
                &&& time is None || time->0 > 0xffff_ffff ==> failed(BuildError::InvalidSystemTime)
                &&& time is Some && time->0 <= 0xffff_ffff ==> after.stage is ReadLateStores
            }
            &&& build.stage is ReadLateStores ==> (event matches StageEvent::LateStores {
                sweeper,
                event_queue,
                peers,
            } ==> {
                let fails = origin_of(sweeper) is Err || origin_of(event_queue) is Err || origin_of(
                    peers,
                ) is Err;
                &&& fails ==> failed(BuildError::ReadFailed)
                &&& !fails ==> after.stage is PersistMissingPeers && (after.findings.sweeper
                    == Origin::Stored <==> sweeper == Ok::<bool, IoErrorKind>(true)) && (
                after.findings.event_queue == Origin::Stored <==> event_queue == Ok::<
                    bool,
                    IoErrorKind,
                >(true)) && (after.findings.peers == Origin::Stored <==> peers == Ok::<
                    bool,
                    IoErrorKind,
                >(true))
            })
            &&& build.stage is PersistMissingPeers && event is MissingPeersPersisted
                ==> after.stage == BuildStage::Done(Ok(()))
        }),
{
}

/// Each stage takes in what came of it, and of no other. What came of a build that is over changes nothing.
pub proof fn law_stages_take_in_what_is_theirs(event: StageEvent)
    ensures
        answers(event, BuildStage::ReadStores) <==> event is StoresRead,
        answers(event, BuildStage::SetUpChainSource) <==> event is ChainSourceReady,
        answers(event, BuildStage::ApplyTip) <==> event is TipApplied,
        answers(event, BuildStage::BuildAdditionalWallets) <==> event is AdditionalWalletsBuilt,
        answers(event, BuildStage::ReadClock) <==> event is Clock,
        answers(event, BuildStage::MigrateChannels) <==> event is Migrated,
        answers(event, BuildStage::ReadLocalGraph) <==> event is LocalGraph,
        answers(event, BuildStage::ReadStoredGraph) <==> event is StoredGraph,
        answers(event, BuildStage::ReadChannelData) <==> event is ChannelData,
        answers(event, BuildStage::ReadChannelManager) <==> event is ChannelManager,
        answers(event, BuildStage::WatchMonitors) <==> event is Watched,
        answers(event, BuildStage::WriteMetrics) <==> event is MetricsWritten,
        answers(event, BuildStage::BuildLiquiditySource) <==> event is LiquiditySource,
        answers(event, BuildStage::ReadPeerClock) <==> event is PeerClock,
        answers(event, BuildStage::ReadLateStores) <==> event is LateStores,
        answers(event, BuildStage::PersistMissingPeers) <==> event is MissingPeersPersisted,
        !answers(event, BuildStage::Done(Ok(()))),
        forall|e: BuildError| !#[trigger] answers(event, BuildStage::Done(Err(e))),
{
}

/// A stage changes nothing of what others found out.
pub proof fn law_findings_stay_found(build: Build, event: StageEvent, settings: BuildSettings)
    ensures
        ({
            let (old, new) = (build.findings, next_build(build, event, settings).findings);
            &&& !(event is ChainSourceReady) ==> new.chain_tip == old.chain_tip
            &&& !(event is StoresRead) && !(event is MetricsWritten)
                ==> new.latest_rgs_snapshot_timestamp == old.latest_rgs_snapshot_timestamp
            &&& !(event is StoresRead) ==> new.metrics == old.metrics
            &&& !(event is LocalGraph) && !(event is StoredGraph) ==> new.graph == old.graph
                && new.rgs_timestamp == old.rgs_timestamp
            &&& !(event is ChannelData) ==> new.monitors == old.monitors && new.scorer == old.scorer
                && new.merges_external_scores == old.merges_external_scores
            &&& !(event is ChannelManager) ==> new.channel_manager == old.channel_manager
            &&& !(event is LateStores) ==> new.sweeper == old.sweeper && new.event_queue
                == old.event_queue && new.peers == old.peers
            &&& next_build(build, event, settings).stage matches BuildStage::Done(Err(_)) ==> new
                == old
        }),
{
}

/// The keys of a remote store: one at a hardened step of its own below the master key of the seed, and one
/// at a hardened step below that, with which requests are signed.
pub proof fn law_the_keys_of_a_remote_store(keys: (Xpriv, Xpriv), network: Network, seed: Seq<u8>)
    requires
        is_vss_keys(keys, network, seed),
    ensures
        crate::keys::master_key(network == Network::Bitcoin, seed) matches Some(master)
            && crate::keys::derived_key(master, seq![(0x8000_0000 + 877) as u32])
            == Some(keys.0.spec_bytes()),
        crate::keys::derived_key(
            keys.0.spec_bytes(),
            seq![(0x8000_0000 + 138) as u32],
        ) == Some(keys.1.spec_bytes()),
{
}

/// The chain source that is set up is the configured one, with its own settings: the server that is
/// configured, and the way of syncing that is configured with it.
pub proof fn law_the_configured_chain_source_is_set_up(
    server_url: String,
    headers: Vec<(String, String)>,
    esplora_config: EsploraSyncConfig,
    esplora: ChainSourceSetup,
    electrum_url: String,
    electrum_config: ElectrumSyncConfig,
    electrum: ChainSourceSetup,
)
    requires
        call_ensures(
            chain_source_setup,
            (Some(
                ChainDataSourceConfig::Esplora {
                    server_url,
                    headers,
                    sync_config: Some(esplora_config),
                },
            ),),
            esplora,
        ),
        call_ensures(
            chain_source_setup,
            (Some(
                ChainDataSourceConfig::Electrum {
                    server_url: electrum_url,
                    sync_config: Some(electrum_config),
                },
            ),),
            electrum,
        ),
    ensures
        esplora == (ChainSourceSetup::Esplora { server_url, headers, sync_config: esplora_config }),
        electrum == (ChainSourceSetup::Electrum {
            server_url: electrum_url,
            sync_config: electrum_config,
        }),
{
}

/// A plan of the wallets is made exactly if nothing is amiss with the configuration, lists every configured
/// account once, and is made with the master key of the seed.
pub proof fn law_plans_list_every_account(
    config: Config,
    chain: Option<ChainDataSourceConfig>,
    seed_bytes: [u8; 64],
    plan: Result<WalletPlan, BuildError>,
    account: OnchainWalletAccount,
    check: Result<(), BuildError>,
)
    requires
        call_ensures(plan_wallet, (&config, &chain, &seed_bytes), plan),
        call_ensures(check_announcement, (&config,), check),
    ensures
        check is Err ==> plan is Err && plan->Err_0 == check->Err_0,
        check is Ok <==> announcement_error(config) is None,
        plan matches Ok(p) ==> crate::keys::master_key(
            config.network == Network::Bitcoin,
            seed_bytes@,
        ) == Some(p.master.spec_bytes()),
        plan matches Ok(p) ==> (p.accounts@.contains(account) <==> exists|i: int|
            0 <= i < config.onchain_wallet_accounts@.len() && (
            #[trigger] config.onchain_wallet_accounts@[i]).address_type == account.address_type
                && config.onchain_wallet_accounts@[i].account_index == account.account_index),
        plan matches Ok(p) ==> p.lookahead == crate::builder::options::lookahead_for(chain),
{
    crate::builder::accounts::law_every_configured_account_is_listed(
        config.onchain_wallet_accounts@,
        account,
    );
}

/// A wallet begins at the tip where that is known, and at the first block of its network otherwise. Messages
/// are kept by servers only, and the node listens to gossip unless it gets it otherwise.
pub proof fn law_how_a_node_begins(
    network: Network,
    tip: BestBlock,
    known: BestBlock,
    unknown: BestBlock,
    role: Option<AsyncPaymentsRole>,
    keeps: bool,
    migration: Option<crate::builder::migration::ChannelDataMigration>,
    gossip: Option<GossipSourceConfig>,
    liquidity: Option<LiquiditySourceConfig>,
    settings: BuildSettings,
)
    requires
        call_ensures(first_best_block, (network, Some(tip)), known),
        call_ensures(first_best_block, (network, None), unknown),
        call_ensures(keeps_messages, (role,), keeps),
        call_ensures(build_settings, (&migration, &gossip, &liquidity), settings),
    ensures
        known == tip,
        unknown.height == 0,
        unknown.block_hash.0@ == genesis_hash(network),
        keeps <==> role == Some(AsyncPaymentsRole::Server),
        settings.migrates_channels <==> migration is Some,
        settings.gossips <==> gossip is None || !(gossip->0 is RapidGossipSync),
        settings.uses_liquidity <==> liquidity is Some,
{
}

} // verus!
