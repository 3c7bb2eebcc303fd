//! A builder for a node.
use crate::builder::error::BuildError;
use crate::builder::migration::ChannelDataMigration;
use crate::builder::options::{
    sanitize_alias, ChainDataSourceConfig, EntropySourceConfig, GossipSourceConfig,
    LSPS1ClientConfig, LSPS2ClientConfig, LSPS2ServiceConfig, LiquiditySourceConfig, LogLevel,
    LogWriterConfig, PathfindingScoresSyncConfig,
};
use crate::config::{
    may_announce_channel, AddressType, AsyncPaymentsRole, BitcoindRestClientConfig, Config,
    ElectrumSyncConfig, EsploraSyncConfig, ScoringDecayParameters, ScoringFeeParameters,
    SocketAddress,
};
use crate::keys::Mnemonic;
use crate::types::{Network, PublicKey};
use vstd::prelude::*;

verus! {

/// A builder for a node, allowing to set some configuration and module choices from the getgo.
///
/// ### Defaults
/// - Wallet entropy is sourced from a `keys_seed` file located under the storage directory
/// - Chain data is sourced from the Esplora endpoint `https://blockstream.info/api`
/// - Gossip data is sourced via the peer-to-peer network
pub struct NodeBuilder {
    pub config: Config,
    pub entropy_source_config: Option<EntropySourceConfig>,
    pub chain_data_source_config: Option<ChainDataSourceConfig>,
    pub gossip_source_config: Option<GossipSourceConfig>,
    pub liquidity_source_config: Option<LiquiditySourceConfig>,
    pub log_writer_config: Option<LogWriterConfig>,
    pub async_payments_role: Option<AsyncPaymentsRole>,
    pub pathfinding_scores_sync_config: Option<PathfindingScoresSyncConfig>,
    pub channel_data_migration: Option<ChannelDataMigration>,
}

impl NodeBuilder {
    /// Creates a new builder instance with the default configuration.
    pub fn new() -> (builder: Self)
        ensures
            builder.config.is_default(),
            builder.nothing_chosen(),
    {
        Self::from_config(Config::default())
    }

    /// Whether nothing but the configuration is set.
    pub open spec fn nothing_chosen(self) -> bool {
        &&& self.entropy_source_config is None
        &&& self.chain_data_source_config is None
        &&& self.gossip_source_config is None
        &&& self.liquidity_source_config is None
        &&& self.log_writer_config is None
        &&& self.async_payments_role is None
        &&& self.pathfinding_scores_sync_config is None
        &&& self.channel_data_migration is None
    }

    /// Creates a new builder instance from a [`Config`].
    pub fn from_config(config: Config) -> (builder: Self)
        ensures
            builder.config == config,
            builder.nothing_chosen(),
    {
        NodeBuilder {
            config,
            entropy_source_config: None,
            chain_data_source_config: None,
            gossip_source_config: None,
            liquidity_source_config: None,
            log_writer_config: None,
            async_payments_role: None,
            pathfinding_scores_sync_config: None,
            channel_data_migration: None,
        }
    }

    /// Configures the node to source its wallet entropy from a seed file on disk.
    ///
    /// If the given file does not exist a new random seed file will be generated and stored at the
    /// given location.
    pub fn set_entropy_seed_path(&mut self, seed_path: String) -> (builder: &mut Self)
        ensures
            *builder == (NodeBuilder {
                entropy_source_config: Some(EntropySourceConfig::SeedFile(seed_path)),
                ..*old(self)
            }),
            *final(self) == *final(builder),
    {
        self.entropy_source_config = Some(EntropySourceConfig::SeedFile(seed_path));
        self
    }

    /// Configures the node to source its wallet entropy from the given 64 seed bytes.
    pub fn set_entropy_seed_bytes(&mut self, seed_bytes: [u8; 64]) -> (builder: &mut Self)
        ensures
            *builder == (NodeBuilder {
                entropy_source_config: Some(EntropySourceConfig::SeedBytes(seed_bytes)),
                ..*old(self)
            }),
            *final(self) == *final(builder),
    {
        self.entropy_source_config = Some(EntropySourceConfig::SeedBytes(seed_bytes));
        self
    }

    /// Configures the node to source its wallet entropy from a BIP 39 mnemonic.
    pub fn set_entropy_bip39_mnemonic(
        &mut self,
        mnemonic: Mnemonic,
        passphrase: Option<String>,
    ) -> (builder: &mut Self)
        ensures
            *builder == (NodeBuilder {
                entropy_source_config: Some(
                    EntropySourceConfig::Bip39Mnemonic { mnemonic, passphrase },
                ),
                ..*old(self)
            }),
            *final(self) == *final(builder),
    {
        self.entropy_source_config = Some(
            EntropySourceConfig::Bip39Mnemonic { mnemonic, passphrase },
        );
        self
    }

    /// Configures the node to take over channels.
    pub fn set_channel_data_migration(&mut self, migration: ChannelDataMigration) -> (builder:
        &mut Self)
        ensures
            *builder == (NodeBuilder { channel_data_migration: Some(migration), ..*old(self) }),
            *final(self) == *final(builder),
    {
        self.channel_data_migration = Some(migration);
        self
    }

    /// Configures the node to source its chain data from the given Esplora server.
    ///
    /// If no `sync_config` is given, default values are used.
    pub fn set_chain_source_esplora(
        &mut self,
        server_url: String,
        sync_config: Option<EsploraSyncConfig>,
    ) -> (builder: &mut Self)
        ensures
            builder.chain_data_source_config matches Some(
                ChainDataSourceConfig::Esplora { server_url: u, headers, sync_config: s },
            ) && u == server_url && headers@ == Seq::<(String, String)>::empty() && s
                == sync_config,
            *builder == (NodeBuilder {
                chain_data_source_config: builder.chain_data_source_config,
                ..*old(self)
            }),
            *final(self) == *final(builder),
    {
        self.chain_data_source_config = Some(
            ChainDataSourceConfig::Esplora { server_url, headers: Vec::new(), sync_config },
        );
        self
    }

    /// Configures the node to source its chain data from the given Esplora server, with the given
    /// headers in each request.
    ///
    /// If no `sync_config` is given, default values are used.
    pub fn set_chain_source_esplora_with_headers(
        &mut self,
        server_url: String,
        headers: Vec<(String, String)>,
        sync_config: Option<EsploraSyncConfig>,
    ) -> (builder: &mut Self)
        ensures
            *builder == (NodeBuilder {
                chain_data_source_config: Some(
                    ChainDataSourceConfig::Esplora { server_url, headers, sync_config },
                ),
                ..*old(self)
            }),
            *final(self) == *final(builder),
    {
        self.chain_data_source_config = Some(
            ChainDataSourceConfig::Esplora { server_url, headers, sync_config },
        );
        self
    }

    /// Configures the node to source its chain data from the given Electrum server.
    ///
    /// If no `sync_config` is given, default values are used.
    pub fn set_chain_source_electrum(
        &mut self,
        server_url: String,
        sync_config: Option<ElectrumSyncConfig>,
    ) -> (builder: &mut Self)
        ensures
            *builder == (NodeBuilder {
                chain_data_source_config: Some(
                    ChainDataSourceConfig::Electrum { server_url, sync_config },
                ),
                ..*old(self)
            }),
            *final(self) == *final(builder),
    {
        self.chain_data_source_config = Some(
            ChainDataSourceConfig::Electrum { server_url, sync_config },
        );
        self
    }

    /// Configures the node to connect to a Bitcoin Core node via RPC.
    ///
    /// This method establishes an RPC connection that enables all essential chain operations
    /// including transaction broadcasting and chain data synchronization.
    pub fn set_chain_source_bitcoind_rpc(
        &mut self,
        rpc_host: String,
        rpc_port: u16,
        rpc_user: String,
        rpc_password: String,
    ) -> (builder: &mut Self)
        ensures
            *builder == (NodeBuilder {
                chain_data_source_config: Some(
                    ChainDataSourceConfig::Bitcoind {
                        rpc_host,
                        rpc_port,
                        rpc_user,
                        rpc_password,
                        rest_client_config: None,
                    },
                ),
                ..*old(self)
            }),
            *final(self) == *final(builder),
    {
        self.chain_data_source_config = Some(
            ChainDataSourceConfig::Bitcoind {
                rpc_host,
                rpc_port,
                rpc_user,
                rpc_password,
                rest_client_config: None,
            },
        );
        self
    }

    /// Configures the node to synchronize chain data from a Bitcoin Core REST endpoint. RPC remains
    /// in use for everything that is not served there.
    pub fn set_chain_source_bitcoind_rest(
        &mut self,
        rest_host: String,
        rest_port: u16,
        rpc_host: String,
        rpc_port: u16,
        rpc_user: String,
        rpc_password: String,
    ) -> (builder: &mut Self)
        ensures
            *builder == (NodeBuilder {
                chain_data_source_config: Some(
                    ChainDataSourceConfig::Bitcoind {
                        rpc_host,
                        rpc_port,
                        rpc_user,
                        rpc_password,
                        rest_client_config: Some(
                            BitcoindRestClientConfig { rest_host, rest_port },
                        ),
                    },
                ),
                ..*old(self)
            }),
            *final(self) == *final(builder),
    {
        self.chain_data_source_config = Some(
            ChainDataSourceConfig::Bitcoind {
                rpc_host,
                rpc_port,
                rpc_user,
                rpc_password,
                rest_client_config: Some(BitcoindRestClientConfig { rest_host, rest_port }),
            },
        );
        self
    }

    /// Configures the node to source its gossip data from the Lightning peer-to-peer network.
    pub fn set_gossip_source_p2p(&mut self) -> (builder: &mut Self)
        ensures
            *builder == (NodeBuilder {
                gossip_source_config: Some(GossipSourceConfig::P2PNetwork),
                ..*old(self)
            }),
            *final(self) == *final(builder),
    {
        self.gossip_source_config = Some(GossipSourceConfig::P2PNetwork);
        self
    }

    /// Configures the node to source its gossip data from the given RapidGossipSync server.
    pub fn set_gossip_source_rgs(&mut self, rgs_server_url: String) -> (builder: &mut Self)
        ensures
            *builder == (NodeBuilder {
                gossip_source_config: Some(GossipSourceConfig::RapidGossipSync(rgs_server_url)),
                ..*old(self)
            }),
            *final(self) == *final(builder),
    {
        self.gossip_source_config = Some(GossipSourceConfig::RapidGossipSync(rgs_server_url));
        self
    }

    /// Configures the node to source its external scores from the given URL.
    pub fn set_pathfinding_scores_source(&mut self, url: String) -> (builder: &mut Self)
        ensures
            *builder == (NodeBuilder {
                pathfinding_scores_sync_config: Some(PathfindingScoresSyncConfig { url }),
                ..*old(self)
            }),
            *final(self) == *final(builder),
    {
        self.pathfinding_scores_sync_config = Some(PathfindingScoresSyncConfig { url });
        self
    }

    /// Sets scorer fee parameters used for pathfinding penalties.
    pub fn set_scoring_fee_params(&mut self, params: ScoringFeeParameters) -> (builder: &mut Self)
        ensures
            *builder == (NodeBuilder {
                config: (Config { scoring_fee_params: Some(params), ..old(self).config }),
                ..*old(self)
            }),
            *final(self) == *final(builder),
    {
        self.config.scoring_fee_params = Some(params);
        self
    }

    /// Sets scorer decay parameters used for liquidity estimate decay.
    pub fn set_scoring_decay_params(&mut self, params: ScoringDecayParameters) -> (builder:
        &mut Self)
        ensures
            *builder == (NodeBuilder {
                config: (Config { scoring_decay_params: Some(params), ..old(self).config }),
                ..*old(self)
            }),
            *final(self) == *final(builder),
    {
        self.config.scoring_decay_params = Some(params);
        self
    }

    /// The services chosen so far.
    pub open spec fn liquidity(self) -> LiquiditySourceConfig {
        match self.liquidity_source_config {
            Some(config) => config,
            None => LiquiditySourceConfig {
                lsps1_client: None,
                lsps2_client: None,
                lsps2_service: None,
            },
        }
    }

    /// Whether a builder differs from another only in its services and in that a peer is trusted for
    /// channels without confirmations.
    pub open spec fn trusts_lsp(
        self,
        before: NodeBuilder,
        node_id: PublicKey,
        liquidity: LiquiditySourceConfig,
    ) -> bool {
        &&& self.config.trusted_peers_0conf@ == before.config.trusted_peers_0conf@.push(node_id)
        &&& self == (NodeBuilder {
            config: (Config {
                trusted_peers_0conf: self.config.trusted_peers_0conf,
                ..before.config
            }),
            liquidity_source_config: Some(liquidity),
            ..before
        })
    }

    fn take_liquidity(&mut self) -> (liquidity: LiquiditySourceConfig)
        ensures
            liquidity == old(self).liquidity(),
            *final(self) == (NodeBuilder { liquidity_source_config: None, ..*old(self) }),
    {
        match self.liquidity_source_config.take() {
            Some(config) => config,
            None => LiquiditySourceConfig::default(),
        }
    }

    /// Configures the node to source inbound liquidity from the given LSPS1 service.
    ///
    /// Will mark the service as trusted for 0-confirmation channels. The given `token` will be used by
    /// it to authenticate the user.
    pub fn set_liquidity_source_lsps1(
        &mut self,
        node_id: PublicKey,
        address: SocketAddress,
        token: Option<String>,
    ) -> (builder: &mut Self)
        ensures
            builder.trusts_lsp(
                *old(self),
                node_id,
                (LiquiditySourceConfig {
                    lsps1_client: Some(LSPS1ClientConfig { node_id, address, token }),
                    ..old(self).liquidity()
                }),
            ),
            *final(self) == *final(builder),
    {
        self.config.trusted_peers_0conf.push(node_id);
        let mut liquidity = self.take_liquidity();
        liquidity.lsps1_client = Some(LSPS1ClientConfig { node_id, address, token });
        self.liquidity_source_config = Some(liquidity);
        self
    }

    /// Configures the node to source just-in-time inbound liquidity from the given LSPS2 service.
    ///
    /// Will mark the service as trusted for 0-confirmation channels. The given `token` will be used by
    /// it to authenticate the user.
    pub fn set_liquidity_source_lsps2(
        &mut self,
        node_id: PublicKey,
        address: SocketAddress,
        token: Option<String>,
    ) -> (builder: &mut Self)
        ensures
            builder.trusts_lsp(
                *old(self),
                node_id,
                (LiquiditySourceConfig {
                    lsps2_client: Some(LSPS2ClientConfig { node_id, address, token }),
                    ..old(self).liquidity()
                }),
            ),
            *final(self) == *final(builder),
    {
        self.config.trusted_peers_0conf.push(node_id);
        let mut liquidity = self.take_liquidity();
        liquidity.lsps2_client = Some(LSPS2ClientConfig { node_id, address, token });
        self.liquidity_source_config = Some(liquidity);
        self
    }

    /// Configures the node to provide an LSPS2 service, issuing just-in-time channels to clients.
    pub fn set_liquidity_provider_lsps2(&mut self, service_config: LSPS2ServiceConfig) -> (builder:
        &mut Self)
        ensures
            *builder == (NodeBuilder {
                liquidity_source_config: Some(
                    LiquiditySourceConfig {
                        lsps2_service: Some(service_config),
                        ..old(self).liquidity()
                    },
                ),
                ..*old(self)
            }),
            *final(self) == *final(builder),
    {
        let mut liquidity = self.take_liquidity();
        liquidity.lsps2_service = Some(service_config);
        self.liquidity_source_config = Some(liquidity);
        self
    }

    /// Sets the used storage directory path.
    pub fn set_storage_dir_path(&mut self, storage_dir_path: String) -> (builder: &mut Self)
        ensures
            *builder == (NodeBuilder {
                config: (Config { storage_dir_path, ..old(self).config }),
                ..*old(self)
            }),
            *final(self) == *final(builder),
    {
        self.config.storage_dir_path = storage_dir_path;
        self
    }

    /// Configures the node to write logs to the filesystem.
    ///
    /// The path defaults to a file in the storage directory, the level to `Debug`.
    pub fn set_filesystem_logger(
        &mut self,
        log_file_path: Option<String>,
        max_log_level: Option<LogLevel>,
    ) -> (builder: &mut Self)
        ensures
            *builder == (NodeBuilder {
                log_writer_config: Some(LogWriterConfig::File { log_file_path, max_log_level }),
                ..*old(self)
            }),
            *final(self) == *final(builder),
    {
        self.log_writer_config = Some(LogWriterConfig::File { log_file_path, max_log_level });
        self
    }

    /// Configures the node to write logs to the `log` facade.
    pub fn set_log_facade_logger(&mut self) -> (builder: &mut Self)
        ensures
            *builder == (NodeBuilder {
                log_writer_config: Some(LogWriterConfig::Log),
                ..*old(self)
            }),
            *final(self) == *final(builder),
    {
        self.log_writer_config = Some(LogWriterConfig::Log);
        self
    }

    /// Configures the node to write logs to a writer that whoever builds it holds.
    pub fn set_custom_logger(&mut self) -> (builder: &mut Self)
        ensures
            *builder == (NodeBuilder {
                log_writer_config: Some(LogWriterConfig::Custom),
                ..*old(self)
            }),
            *final(self) == *final(builder),
    {
        self.log_writer_config = Some(LogWriterConfig::Custom);
        self
    }

    /// Sets the Bitcoin network used.
    pub fn set_network(&mut self, network: Network) -> (builder: &mut Self)
        ensures
            *builder == (NodeBuilder {
                config: (Config { network, ..old(self).config }),
                ..*old(self)
            }),
            *final(self) == *final(builder),
    {
        self.config.network = network;
        self
    }

    /// Sets the primary address type for the on-chain wallet.
    ///
    /// This determines what type of addresses will be generated for new receiving and change
    /// addresses.
    pub fn set_address_type(&mut self, address_type: AddressType) -> (builder: &mut Self)
        ensures
            *builder == (NodeBuilder {
                config: (Config { address_type, ..old(self).config }),
                ..*old(self)
            }),
            *final(self) == *final(builder),
    {
        self.config.address_type = address_type;
        self
    }

    /// Sets additional address types to monitor for existing funds.
    ///
    /// These address types will be scanned alongside the primary address type during chain
    /// synchronization.
    pub fn set_address_types_to_monitor(&mut self, address_types_to_monitor: Vec<AddressType>) -> (
    builder: &mut Self)
        ensures
            *builder == (NodeBuilder {
                config: (Config { address_types_to_monitor, ..old(self).config }),
                ..*old(self)
            }),
            *final(self) == *final(builder),
    {
        self.config.address_types_to_monitor = address_types_to_monitor;
        self
    }

    /// Sets the addresses on which the node will listen for incoming network connections. There can be
    /// at most a hundred of them.
    pub fn set_listening_addresses(&mut self, listening_addresses: Vec<SocketAddress>) -> (result:
        Result<&mut Self, BuildError>)
        ensures
            match result {
                Ok(builder) => {
                    &&& listening_addresses@.len() <= 100
                    &&& *builder == (NodeBuilder {
                        config: (Config {
                            listening_addresses: Some(listening_addresses),
                            ..old(self).config
                        }),
                        ..*old(self)
                    })
                    &&& *final(self) == *final(builder)
                },
                Err(e) => {
                    &&& e == BuildError::InvalidListeningAddresses
                    &&& listening_addresses@.len() > 100
                    &&& *final(self) == *old(self)
                },
            },
    {
        if listening_addresses.len() > 100 {
            return Err(BuildError::InvalidListeningAddresses);
        }
        self.config.listening_addresses = Some(listening_addresses);
        Ok(self)
    }

    /// Sets the addresses which the node will announce to the gossip network that it accepts
    /// connections on. There can be at most a hundred of them.
    ///
    /// **Note**: If unset, the listening addresses will be used as the list of addresses to announce.
    pub fn set_announcement_addresses(&mut self, announcement_addresses: Vec<SocketAddress>) -> (
    result: Result<&mut Self, BuildError>)
        ensures
            match result {
                Ok(builder) => {
                    &&& announcement_addresses@.len() <= 100
                    &&& *builder == (NodeBuilder {
                        config: (Config {
                            announcement_addresses: Some(announcement_addresses),
                            ..old(self).config
                        }),
                        ..*old(self)
                    })
                    &&& *final(self) == *final(builder)
                },
                Err(e) => {
                    &&& e == BuildError::InvalidAnnouncementAddresses
                    &&& announcement_addresses@.len() > 100
                    &&& *final(self) == *old(self)
                },
            },
    {
        if announcement_addresses.len() > 100 {
            return Err(BuildError::InvalidAnnouncementAddresses);
        }
        self.config.announcement_addresses = Some(announcement_addresses);
        Ok(self)
    }

    /// Sets the node alias that will be used when broadcasting announcements to the gossip network.
    ///
    /// The provided alias must be no longer than 32 bytes in total.
    pub fn set_node_alias(&mut self, node_alias: String) -> (result: Result<&mut Self, BuildError>)
        ensures
            match result {
                Ok(builder) => {
                    &&& crate::builder::options::alias_bytes(node_alias@).len() <= 32
                    &&& builder.config.node_alias matches Some(alias) && alias.0@
                        == crate::builder::options::zero_padded(
                        crate::builder::options::alias_bytes(node_alias@),
                        32,
                    )
                    &&& *builder == (NodeBuilder {
                        config: (Config {
                            node_alias: builder.config.node_alias,
                            ..old(self).config
                        }),
                        ..*old(self)
                    })
                    &&& *final(self) == *final(builder)
                },
                Err(e) => {
                    &&& e == BuildError::InvalidNodeAlias
                    &&& crate::builder::options::alias_bytes(node_alias@).len() > 32
                    &&& *final(self) == *old(self)
                },
            },
    {
        match sanitize_alias(node_alias.as_str()) {
            Err(e) => Err(e),
            Ok(alias) => {
                self.config.node_alias = Some(alias);
                Ok(self)
            },
        }
    }

    /// Sets the role of the node in an asynchronous payments context.
    ///
    /// A server must be able to announce its channels.
    pub fn set_async_payments_role(&mut self, role: Option<AsyncPaymentsRole>) -> (result: Result<
        &mut Self,
        BuildError,
    >)
        ensures
            match result {
                Ok(builder) => {
                    &&& role == Some(AsyncPaymentsRole::Server) ==> announces(old(self).config)
                    &&& *builder == (NodeBuilder { async_payments_role: role, ..*old(self) })
                    &&& *final(self) == *final(builder)
                },
                Err(e) => {
                    &&& e == BuildError::AsyncPaymentsConfigMismatch
                    &&& role == Some(AsyncPaymentsRole::Server) && !announces(old(self).config)
                    &&& *final(self) == *old(self)
                },
            },
    {
        if let Some(AsyncPaymentsRole::Server) = role {
            if may_announce_channel(&self.config).is_err() {
                return Err(BuildError::AsyncPaymentsConfigMismatch);
            }
        }
        self.async_payments_role = role;
        Ok(self)
    }
}

/// Whether a node can announce its channels.
pub open spec fn announces(config: Config) -> bool {
    config.node_alias is Some && crate::config::listens(config)
}

/// A builder begins without any choice: with no source of the seed, of the chain, of gossip or of liquidity,
/// no log writer, no role in async payments, no source of scores and no channel data to take over.
pub proof fn law_a_builder_begins_without_choices(builder: NodeBuilder)
    ensures
        builder.nothing_chosen() <==> builder.entropy_source_config is None
            && builder.chain_data_source_config is None && builder.gossip_source_config is None
            && builder.liquidity_source_config is None && builder.log_writer_config is None
            && builder.async_payments_role is None && builder.pathfinding_scores_sync_config is None
            && builder.channel_data_migration is None,
{
}

/// Naming a provider of liquidity adds it, and no other peer, to the peers that are trusted for channels
/// without confirmations, and changes nothing else but the services.
pub proof fn law_a_provider_is_trusted(
    after: NodeBuilder,
    before: NodeBuilder,
    node_id: PublicKey,
    liquidity: LiquiditySourceConfig,
    peer: PublicKey,
)
    requires
        after.trusts_lsp(before, node_id, liquidity),
    ensures
        after.config.trusted_peers_0conf@.contains(peer)
            <==> before.config.trusted_peers_0conf@.contains(peer) || peer == node_id,
        before.config.trusted_peers_0conf@.is_prefix_of(after.config.trusted_peers_0conf@),
        after.config.trusted_peers_0conf@.len() == before.config.trusted_peers_0conf@.len() + 1,
        after.liquidity_source_config == Some(liquidity),
        after.liquidity() == liquidity,
        after.entropy_source_config == before.entropy_source_config,
        after.chain_data_source_config == before.chain_data_source_config,
        after.gossip_source_config == before.gossip_source_config,
        after.log_writer_config == before.log_writer_config,
        after.async_payments_role == before.async_payments_role,
        after.pathfinding_scores_sync_config == before.pathfinding_scores_sync_config,
        after.channel_data_migration == before.channel_data_migration,
        after.config.storage_dir_path == before.config.storage_dir_path,
        after.config.network == before.config.network,
        after.config.listening_addresses == before.config.listening_addresses,
        after.config.announcement_addresses == before.config.announcement_addresses,
        after.config.node_alias == before.config.node_alias,
        after.config.anchor_channels_config == before.config.anchor_channels_config,
        after.config.onchain_wallet_accounts == before.config.onchain_wallet_accounts,
        after.config.address_type == before.config.address_type,
{
    let (a, b) = (after.config.trusted_peers_0conf@, before.config.trusted_peers_0conf@);
    assert(a[b.len() as int] == node_id);
    assert(b =~= a.take(b.len() as int));
    if b.contains(peer) {
        let i = choose|i: int| 0 <= i < b.len() && b[i] == peer;
        assert(a[i] == peer);
    }
    if a.contains(peer) && peer != node_id {
        let i = choose|i: int| 0 <= i < a.len() && a[i] == peer;
        assert(b[i] == peer);
    }
}

/// No service is used unless one is configured, and a node can announce channels exactly if it has an alias
/// and an address to listen on.
pub proof fn law_services_and_announcements_are_configured(builder: NodeBuilder, config: Config)
    ensures
        builder.liquidity_source_config is None ==> builder.liquidity().lsps1_client is None
            && builder.liquidity().lsps2_client is None && builder.liquidity().lsps2_service
            is None,
        builder.liquidity_source_config matches Some(c) ==> builder.liquidity() == c,
        announces(config) <==> config.node_alias is Some && config.listening_addresses is Some
            && config.listening_addresses->0@.len() >= 1,
{
}

} // verus!
