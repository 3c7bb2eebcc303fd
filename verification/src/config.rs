//! Objects for configuring the node.
use crate::types::{Network, PublicKey};
use vstd::prelude::*;

verus! {

pub const DEFAULT_BDK_WALLET_SYNC_INTERVAL_SECS: u64 = 80;

pub const DEFAULT_LDK_WALLET_SYNC_INTERVAL_SECS: u64 = 30;

pub const DEFAULT_FEE_RATE_CACHE_UPDATE_INTERVAL_SECS: u64 = 600;

pub const DEFAULT_PROBING_LIQUIDITY_LIMIT_MULTIPLIER: u64 = 3;

pub const DEFAULT_ANCHOR_PER_CHANNEL_RESERVE_SATS: u64 = 25_000;

/// The number of derivation indexes without a transaction after which a scan stops looking for
/// scripts that belong to the wallet.
pub const BDK_CLIENT_STOP_GAP: usize = 20;

/// The number of concurrent requests made against the API provider.
pub const BDK_CLIENT_CONCURRENCY: usize = 4;

/// The number of scripts asked for in one request to an Electrum server.
pub const BDK_ELECTRUM_CLIENT_BATCH_SIZE: usize = 5;

/// The timeout of a connection to an Electrum server.
pub const DEFAULT_ELECTRUM_CONNECTION_TIMEOUT_SECS: u64 = 10;

/// The timeout of a request to an Esplora server.
pub const DEFAULT_ESPLORA_CLIENT_TIMEOUT_SECS: u64 = 10;

/// The interval (in block height) after which we retry archiving fully resolved channel monitors.
pub const RESOLVED_CHANNEL_MONITOR_ARCHIVAL_INTERVAL: u32 = 6;

/// The lower limit which we apply to any configured wallet sync intervals.
pub const WALLET_SYNC_INTERVAL_MINIMUM_SECS: u64 = 10;

/// The timeout after which we abort an on-chain wallet syncing operation.
pub const BDK_WALLET_SYNC_TIMEOUT_SECS: u64 = 20;

/// The timeout after which we abort a Lightning wallet syncing operation.
pub const LDK_WALLET_SYNC_TIMEOUT_SECS: u64 = 10;

/// The timeout after which we abort a fee rate cache update operation.
pub const FEE_RATE_CACHE_UPDATE_TIMEOUT_SECS: u64 = 5;

/// The timeout after which we abort a transaction broadcast operation.
pub const TX_BROADCAST_TIMEOUT_SECS: u64 = 5;

/// The length in bytes of our wallets' keys seed.
pub const WALLET_KEYS_SEED_LEN: usize = 64;

/// The largest index of an account of the on-chain wallet: indexes of hardened keys end there.
pub const MAX_ONCHAIN_WALLET_ACCOUNT_INDEX: u32 = 0x7fff_ffff;

/// The directory that everything is stored in unless another one is configured.
pub open spec fn default_storage_dir_path() -> &'static str {
    "/tmp/ldk_node/"
}

/// The Esplora server that is used unless another chain source is configured.
pub open spec fn default_esplora_server_url() -> &'static str {
    "https://blockstream.info/api"
}

/// An address that a node can be reached at.
#[allow(inconsistent_fields)]
#[derive(Clone, Debug)]
pub enum SocketAddress {
    TcpIpV4 { addr: [u8; 4], port: u16 },
    TcpIpV6 { addr: [u8; 16], port: u16 },
    OnionV2([u8; 12]),
    OnionV3 { ed25519_pubkey: [u8; 32], checksum: u16, version: u8, port: u16 },
    Hostname { hostname: String, port: u16 },
}

/// A name that a node is announced under: text, filled up with zeros.
#[derive(Clone, Copy, Debug)]
pub struct NodeAlias(pub [u8; 32]);

/// Which kind of addresses a wallet hands out.
#[derive(Clone, Copy, Debug, PartialEq, Eq, Structural)]
pub enum AddressType {
    Legacy,
    NestedSegwit,
    NativeSegwit,
    Taproot,
}

impl AddressType {
    /// The purpose that the keys of such addresses are derived for.
    pub open spec fn purpose(self) -> u32 {
        match self {
            AddressType::Legacy => 44,
            AddressType::NestedSegwit => 49,
            AddressType::NativeSegwit => 84,
            AddressType::Taproot => 86,
        }
    }

    /// The purpose that the keys of such addresses are derived for.
    pub fn bip_purpose(&self) -> (purpose: u32)
        ensures
            purpose == self.purpose(),
    {
        match self {
            AddressType::Legacy => 44,
            AddressType::NestedSegwit => 49,
            AddressType::NativeSegwit => 84,
            AddressType::Taproot => 86,
        }
    }
}

/// An account of the on-chain wallet.
#[derive(Clone, Copy, Debug, PartialEq, Eq, Structural)]
pub struct OnchainWalletAccount {
    pub address_type: AddressType,
    pub account_index: u32,
}

impl OnchainWalletAccount {
    /// The first account of an address type.
    pub fn account_zero(address_type: AddressType) -> (account: Self)
        ensures
            account == (OnchainWalletAccount { address_type, account_index: 0 }),
    {
        OnchainWalletAccount { address_type, account_index: 0 }
    }
}

/// An account that the node is configured to watch, with the public key that it must have.
#[derive(Clone, Debug)]
pub struct OnchainWalletAccountConfig {
    pub address_type: AddressType,
    pub account_index: u32,
    pub xpub: String,
}

/// Limits on the routes of payments.
#[derive(Clone, Copy, Debug, PartialEq, Eq, Structural)]
pub struct RouteParametersConfig {
    pub max_total_routing_fee_msat: Option<u64>,
    pub max_total_cltv_expiry_delta: u32,
    pub max_path_count: u8,
    pub max_channel_saturation_power_of_half: u8,
}

/// Represents the configuration of a node instance.
#[derive(Debug)]
pub struct Config {
    /// The path where the underlying data is stored.
    pub storage_dir_path: String,
    /// The used Bitcoin network.
    pub network: Network,
    /// The addresses on which the node will listen for incoming connections.
    pub listening_addresses: Option<Vec<SocketAddress>>,
    /// The addresses which the node will announce to the gossip network.
    pub announcement_addresses: Option<Vec<SocketAddress>>,
    /// The node alias that will be used when broadcasting announcements to the gossip network.
    pub node_alias: Option<NodeAlias>,
    /// A list of peers that we allow to establish zero confirmation channels to us.
    pub trusted_peers_0conf: Vec<PublicKey>,
    /// The liquidity factor by which we filter the outgoing channels used for sending probes.
    pub probing_liquidity_limit_multiplier: u64,
    /// Configuration options pertaining to Anchor channels. `None` disables them.
    pub anchor_channels_config: Option<AnchorChannelsConfig>,
    /// Configuration options for payment routing and pathfinding.
    pub route_parameters: Option<RouteParametersConfig>,
    /// The kind of addresses that the primary wallet hands out.
    pub address_type: AddressType,
    /// The kinds of addresses that are watched for funds besides.
    pub address_types_to_monitor: Vec<AddressType>,
    /// Accounts that are watched besides the primary wallet.
    pub onchain_wallet_accounts: Vec<OnchainWalletAccountConfig>,
    /// How routes are penalized.
    pub scoring_fee_params: Option<ScoringFeeParameters>,
    /// How fast what is known of the liquidity of channels is forgotten.
    pub scoring_decay_params: Option<ScoringDecayParameters>,
}

/// Scorer fee parameters used for pathfinding penalties.
#[derive(Clone, Copy, Debug, PartialEq, Eq, Structural)]
pub struct ScoringFeeParameters {
    pub base_penalty_msat: u64,
    pub base_penalty_amount_multiplier_msat: u64,
    pub liquidity_penalty_multiplier_msat: u64,
    pub liquidity_penalty_amount_multiplier_msat: u64,
    pub historical_liquidity_penalty_multiplier_msat: u64,
    pub historical_liquidity_penalty_amount_multiplier_msat: u64,
    pub anti_probing_penalty_msat: u64,
    pub considered_impossible_penalty_msat: u64,
    pub linear_success_probability: bool,
    pub probing_diversity_penalty_msat: u64,
}

/// Scorer decay parameters used for liquidity estimate decay.
#[derive(Clone, Copy, Debug, PartialEq, Eq, Structural)]
pub struct ScoringDecayParameters {
    pub historical_no_updates_half_life_secs: u64,
    pub liquidity_offset_half_life_secs: u64,
}

impl Config {
    /// Whether every option has its default value.
    pub open spec fn is_default(self) -> bool {
        &&& self.storage_dir_path@ == default_storage_dir_path()@
        &&& self.network == Network::Bitcoin
        &&& self.listening_addresses is None
        &&& self.announcement_addresses is None
        &&& self.node_alias is None
        &&& self.trusted_peers_0conf@ == Seq::<PublicKey>::empty()
        &&& self.probing_liquidity_limit_multiplier == DEFAULT_PROBING_LIQUIDITY_LIMIT_MULTIPLIER
        &&& self.anchor_channels_config matches Some(anchors) && {
            &&& anchors.trusted_peers_no_reserve@ == Seq::<PublicKey>::empty()
            &&& anchors.per_channel_reserve_sats == DEFAULT_ANCHOR_PER_CHANNEL_RESERVE_SATS
        }
        &&& self.route_parameters is None
        &&& self.address_type == AddressType::NativeSegwit
        &&& self.address_types_to_monitor@ == Seq::<AddressType>::empty()
        &&& self.onchain_wallet_accounts@ == Seq::<OnchainWalletAccountConfig>::empty()
        &&& self.scoring_fee_params is None
        &&& self.scoring_decay_params is None
    }
}

impl Default for Config {
    fn default() -> (config: Self)
        ensures
            config.is_default(),
    {
        Config {
            storage_dir_path: "/tmp/ldk_node/".to_owned(),
            network: Network::Bitcoin,
            listening_addresses: None,
            announcement_addresses: None,
            node_alias: None,
            trusted_peers_0conf: Vec::new(),
            probing_liquidity_limit_multiplier: DEFAULT_PROBING_LIQUIDITY_LIMIT_MULTIPLIER,
            anchor_channels_config: Some(AnchorChannelsConfig::default()),
            route_parameters: None,
            address_type: AddressType::NativeSegwit,
            address_types_to_monitor: Vec::new(),
            onchain_wallet_accounts: Vec::new(),
            scoring_fee_params: None,
            scoring_decay_params: None,
        }
    }
}

/// Configuration options pertaining to 'Anchor' channels, i.e., channels for which an anchor output
/// lets the fee of the commitment transaction be raised when it is broadcast.
#[derive(Debug)]
pub struct AnchorChannelsConfig {
    /// A list of peers that we trust to get the required channel closing transactions confirmed.
    pub trusted_peers_no_reserve: Vec<PublicKey>,
    /// The amount of satoshis per anchors-negotiated channel with an untrusted peer that we keep as
    /// an emergency reserve in our on-chain wallet.
    pub per_channel_reserve_sats: u64,
}

impl Default for AnchorChannelsConfig {
    fn default() -> (config: Self)
        ensures
            config.trusted_peers_no_reserve@ == Seq::<PublicKey>::empty(),
            config.per_channel_reserve_sats == DEFAULT_ANCHOR_PER_CHANNEL_RESERVE_SATS,
    {
        AnchorChannelsConfig {
            trusted_peers_no_reserve: Vec::new(),
            per_channel_reserve_sats: DEFAULT_ANCHOR_PER_CHANNEL_RESERVE_SATS,
        }
    }
}

/// Returns a [`Config`] object populated with default values.
pub fn default_config() -> (config: Config)
    ensures
        config.is_default(),
{
    Config::default()
}

/// Specifies reasons why a channel cannot be announced.
#[derive(Clone, Copy, Debug, PartialEq, Eq, Structural)]
pub enum AnnounceError {
    /// The node alias is not set.
    MissingNodeAlias,
    /// The listening addresses are not set.
    MissingListeningAddresses,
    /// Neither the node alias nor the listening addresses are set.
    MissingAliasAndAddresses,
}

impl AnnounceError {
    /// The reason in words.
    pub open spec fn spec_message(self) -> &'static str {
        match self {
            AnnounceError::MissingNodeAlias => "Node alias is not configured",
            AnnounceError::MissingListeningAddresses => "Listening addresses are not configured",
            AnnounceError::MissingAliasAndAddresses =>
                "Node alias and listening addresses are not configured",
        }
    }

    /// The reason in words.
    pub fn message(&self) -> (text: String)
        ensures
            text@ == self.spec_message()@,
    {
        match self {
            AnnounceError::MissingNodeAlias => "Node alias is not configured".to_owned(),
            AnnounceError::MissingListeningAddresses =>
                "Listening addresses are not configured".to_owned(),
            AnnounceError::MissingAliasAndAddresses =>
                "Node alias and listening addresses are not configured".to_owned(),
        }
    }
}

/// Whether a node listens anywhere.
pub open spec fn listens(config: Config) -> bool {
    config.listening_addresses matches Some(addrs) && addrs@.len() > 0
}

/// Checks if a node is can announce a channel based on the configured values of both the node's
/// alias and its listening addresses.
///
/// If either of them is unset, the node cannot announce the channel. This ability to announce or
/// unannounce a channel is codified with `Result`.
pub fn may_announce_channel(config: &Config) -> (may: Result<(), AnnounceError>)
    ensures
        may == (if config.node_alias is Some {
            if listens(*config) {
                Ok::<(), AnnounceError>(())
            } else {
                Err::<(), AnnounceError>(AnnounceError::MissingListeningAddresses)
            }
        } else if listens(*config) {
            Err::<(), AnnounceError>(AnnounceError::MissingNodeAlias)
        } else {
            Err::<(), AnnounceError>(AnnounceError::MissingAliasAndAddresses)
        }),
{
    let has_listening_addresses = match &config.listening_addresses {
        Some(addrs) => !addrs.is_empty(),
        None => false,
    };
    if config.node_alias.is_some() {
        if has_listening_addresses {
            Ok(())
        } else {
            Err(AnnounceError::MissingListeningAddresses)
        }
    } else if has_listening_addresses {
        Err(AnnounceError::MissingNodeAlias)
    } else {
        Err(AnnounceError::MissingAliasAndAddresses)
    }
}

/// What the node decides about the way its channels are opened and used. Everything else is left at
/// the defaults of the channel manager.
#[derive(Clone, Copy, Debug, PartialEq, Eq, Structural)]
pub struct UserConfig {
    pub accept_forwards_to_priv_channels: bool,
    pub manually_accept_inbound_channels: bool,
    pub accept_intercept_htlcs: bool,
    pub enable_htlc_hold: bool,
    pub hold_outbound_htlcs_at_next_hop: bool,
    pub reject_inbound_splices: bool,
    pub announce_for_forwarding: bool,
    pub negotiate_anchors_zero_fee_htlc_tx: bool,
    pub max_inbound_htlc_value_in_flight_percent_of_channel: u8,
    pub force_announced_channel_preference: bool,
}

/// The defaults of the channel manager.
///
/// Calls `lightning::util::config::UserConfig::default` and copies the fields, whose values its
/// source gives.
#[verifier::external_body]
fn channel_manager_defaults() -> (config: UserConfig)
    ensures
        config == (UserConfig {
            accept_forwards_to_priv_channels: false,
            manually_accept_inbound_channels: false,
            accept_intercept_htlcs: false,
            enable_htlc_hold: false,
            hold_outbound_htlcs_at_next_hop: false,
            reject_inbound_splices: true,
            announce_for_forwarding: false,
            negotiate_anchors_zero_fee_htlc_tx: false,
            max_inbound_htlc_value_in_flight_percent_of_channel: 10,
            force_announced_channel_preference: true,
        }),
{
    let c = lightning::util::config::UserConfig::default();
    UserConfig {
        accept_forwards_to_priv_channels: c.accept_forwards_to_priv_channels,
        manually_accept_inbound_channels: c.manually_accept_inbound_channels,
        accept_intercept_htlcs: c.accept_intercept_htlcs,
        enable_htlc_hold: c.enable_htlc_hold,
        hold_outbound_htlcs_at_next_hop: c.hold_outbound_htlcs_at_next_hop,
        reject_inbound_splices: c.reject_inbound_splices,
        announce_for_forwarding: c.channel_handshake_config.announce_for_forwarding,
        negotiate_anchors_zero_fee_htlc_tx: c.channel_handshake_config.negotiate_anchors_zero_fee_htlc_tx,
        max_inbound_htlc_value_in_flight_percent_of_channel: c.channel_handshake_config.max_inbound_htlc_value_in_flight_percent_of_channel,
        force_announced_channel_preference: c.channel_handshake_limits.force_announced_channel_preference,
    }
}

/// What a configuration means for the node's channels.
pub open spec fn user_config_of(config: Config) -> UserConfig {
    let announceable = config.node_alias is Some && listens(config);
    UserConfig {
        accept_forwards_to_priv_channels: false,
        manually_accept_inbound_channels: true,
        accept_intercept_htlcs: false,
        enable_htlc_hold: false,
        hold_outbound_htlcs_at_next_hop: false,
        reject_inbound_splices: false,
        announce_for_forwarding: false,
        negotiate_anchors_zero_fee_htlc_tx: config.anchor_channels_config is Some,
        max_inbound_htlc_value_in_flight_percent_of_channel: 10,
        force_announced_channel_preference: !announceable,
    }
}

/// The values that channels are opened and used with unless a call says otherwise. A node that may
/// not announce channels neither announces nor forwards, and insists on that.
pub fn default_user_config(config: &Config) -> (user_config: UserConfig)
    ensures
        user_config == user_config_of(*config),
{
    let mut user_config = channel_manager_defaults();
    user_config.force_announced_channel_preference = false;
    user_config.manually_accept_inbound_channels = true;
    user_config.negotiate_anchors_zero_fee_htlc_tx = config.anchor_channels_config.is_some();
    user_config.reject_inbound_splices = false;

    if may_announce_channel(config).is_err() {
        user_config.accept_forwards_to_priv_channels = false;
        user_config.announce_for_forwarding = false;
        user_config.force_announced_channel_preference = true;
    }

    user_config
}

/// Options related to background syncing the Lightning and on-chain wallets.
#[derive(Clone, Copy, Debug, PartialEq, Eq, Structural)]
pub struct BackgroundSyncConfig {
    /// The time in-between background sync attempts of the onchain wallet, in seconds.
    ///
    /// **Note:** A minimum of 10 seconds is enforced when background syncing is enabled.
    pub onchain_wallet_sync_interval_secs: u64,
    /// The time in-between background sync attempts of the Lightning wallet, in seconds.
    ///
    /// **Note:** A minimum of 10 seconds is enforced when background syncing is enabled.
    pub lightning_wallet_sync_interval_secs: u64,
    /// The time in-between background update attempts to our fee rate cache, in seconds.
    ///
    /// **Note:** A minimum of 10 seconds is enforced when background syncing is enabled.
    pub fee_rate_cache_update_interval_secs: u64,
}

impl BackgroundSyncConfig {
    pub open spec fn spec_default() -> Self {
        BackgroundSyncConfig {
            onchain_wallet_sync_interval_secs: DEFAULT_BDK_WALLET_SYNC_INTERVAL_SECS,
            lightning_wallet_sync_interval_secs: DEFAULT_LDK_WALLET_SYNC_INTERVAL_SECS,
            fee_rate_cache_update_interval_secs: DEFAULT_FEE_RATE_CACHE_UPDATE_INTERVAL_SECS,
        }
    }
}

impl Default for BackgroundSyncConfig {
    fn default() -> (config: Self)
        ensures
            config == BackgroundSyncConfig::spec_default(),
    {
        BackgroundSyncConfig {
            onchain_wallet_sync_interval_secs: DEFAULT_BDK_WALLET_SYNC_INTERVAL_SECS,
            lightning_wallet_sync_interval_secs: DEFAULT_LDK_WALLET_SYNC_INTERVAL_SECS,
            fee_rate_cache_update_interval_secs: DEFAULT_FEE_RATE_CACHE_UPDATE_INTERVAL_SECS,
        }
    }
}

/// Configuration for syncing with an Esplora backend.
///
/// Background syncing is enabled by default, using the default values specified in
/// [`BackgroundSyncConfig`].
#[derive(Clone, Copy, Debug, PartialEq, Eq, Structural)]
pub struct EsploraSyncConfig {
    /// Background sync configuration. If set to `None`, background syncing will be disabled.
    pub background_sync_config: Option<BackgroundSyncConfig>,
}

impl EsploraSyncConfig {
    pub open spec fn spec_default() -> Self {
        EsploraSyncConfig { background_sync_config: Some(BackgroundSyncConfig::spec_default()) }
    }
}

impl Default for EsploraSyncConfig {
    fn default() -> (config: Self)
        ensures
            config == EsploraSyncConfig::spec_default(),
    {
        EsploraSyncConfig { background_sync_config: Some(BackgroundSyncConfig::default()) }
    }
}

/// Configuration for syncing with an Electrum backend.
///
/// Background syncing is enabled by default, using the default values specified in
/// [`BackgroundSyncConfig`].
#[derive(Clone, Copy, Debug, PartialEq, Eq, Structural)]
pub struct ElectrumSyncConfig {
    /// Background sync configuration. If set to `None`, background syncing will be disabled.
    pub background_sync_config: Option<BackgroundSyncConfig>,
    /// The timeout of connections to the server, in seconds. Zero stands for the default.
    pub connection_timeout_secs: u64,
    /// How many scripts a full scan of an additional wallet asks for in one request.
    pub additional_wallet_full_scan_batch_size: u32,
    /// How many unused scripts end a full scan of an additional wallet.
    pub additional_wallet_full_scan_stop_gap: u32,
}

impl ElectrumSyncConfig {
    pub open spec fn spec_default() -> Self {
        ElectrumSyncConfig {
            background_sync_config: Some(BackgroundSyncConfig::spec_default()),
            connection_timeout_secs: DEFAULT_ELECTRUM_CONNECTION_TIMEOUT_SECS,
            additional_wallet_full_scan_batch_size: 5,
            additional_wallet_full_scan_stop_gap: 20,
        }
    }
}

impl Default for ElectrumSyncConfig {
    fn default() -> (config: Self)
        ensures
            config == ElectrumSyncConfig::spec_default(),
    {
        ElectrumSyncConfig {
            background_sync_config: Some(BackgroundSyncConfig::default()),
            connection_timeout_secs: DEFAULT_ELECTRUM_CONNECTION_TIMEOUT_SECS,
            additional_wallet_full_scan_batch_size: 5,
            additional_wallet_full_scan_stop_gap: 20,
        }
    }
}

/// Configuration for syncing with Bitcoin Core backend via REST.
#[derive(Clone, Debug)]
pub struct BitcoindRestClientConfig {
    /// Host URL.
    pub rest_host: String,
    /// Host port.
    pub rest_port: u16,
}

/// Options which apply on a per-channel basis and may change at runtime or based on negotiation with
/// our counterparty.
#[derive(Clone, Copy, Debug, PartialEq, Eq, Structural)]
pub struct ChannelConfig {
    /// Amount (in millionths of a satoshi) charged per satoshi for payments forwarded outbound over
    /// the channel.
    pub forwarding_fee_proportional_millionths: u32,
    /// Amount (in milli-satoshi) charged for payments forwarded outbound over the channel, in
    /// excess of the proportional fee.
    pub forwarding_fee_base_msat: u32,
    /// The difference in the CLTV value between incoming HTLCs and an outbound HTLC forwarded over
    /// the channel this config applies to.
    pub cltv_expiry_delta: u16,
    /// Limit our total exposure to potential loss to on-chain fees on close.
    pub max_dust_htlc_exposure: MaxDustHTLCExposure,
    /// The additional fee we're willing to pay to avoid waiting for the counterparty's locktime to
    /// reclaim funds.
    pub force_close_avoidance_max_fee_satoshis: u64,
    /// If set, allows this channel's counterparty to skim an additional fee off this node's inbound
    /// HTLCs.
    pub accept_underpaying_htlcs: bool,
}

impl ChannelConfig {
    pub open spec fn spec_default() -> Self {
        ChannelConfig {
            forwarding_fee_proportional_millionths: 0,
            forwarding_fee_base_msat: 1000,
            cltv_expiry_delta: 72,
            max_dust_htlc_exposure: MaxDustHTLCExposure::FeeRateMultiplier { multiplier: 10000 },
            force_close_avoidance_max_fee_satoshis: 1000,
            accept_underpaying_htlcs: false,
        }
    }
}

/// The default options of a channel.
///
/// Calls `lightning::util::config::ChannelConfig::default` and copies the fields, whose values its
/// source gives.
#[verifier::external_body]
fn ldk_channel_config_default() -> (config: ChannelConfig)
    ensures
        config == ChannelConfig::spec_default(),
{
    let c = lightning::util::config::ChannelConfig::default();
    ChannelConfig {
        forwarding_fee_proportional_millionths: c.forwarding_fee_proportional_millionths,
        forwarding_fee_base_msat: c.forwarding_fee_base_msat,
        cltv_expiry_delta: c.cltv_expiry_delta,
        max_dust_htlc_exposure: match c.max_dust_htlc_exposure {
            lightning::util::config::MaxDustHTLCExposure::FixedLimitMsat(limit_msat) => MaxDustHTLCExposure::FixedLimit { limit_msat },
            lightning::util::config::MaxDustHTLCExposure::FeeRateMultiplier(multiplier) => MaxDustHTLCExposure::FeeRateMultiplier { multiplier },
        },
        force_close_avoidance_max_fee_satoshis: c.force_close_avoidance_max_fee_satoshis,
        accept_underpaying_htlcs: c.accept_underpaying_htlcs,
    }
}

impl Default for ChannelConfig {
    fn default() -> (config: Self)
        ensures
            config == ChannelConfig::spec_default(),
    {
        ldk_channel_config_default()
    }
}

/// Options for how to set the max dust exposure allowed on a channel.
#[derive(Clone, Copy, Debug, PartialEq, Eq, Structural)]
pub enum MaxDustHTLCExposure {
    /// This sets a fixed limit on the total dust exposure in millisatoshis.
    FixedLimit { limit_msat: u64 },
    /// This sets a multiplier on the feerate to determine the maximum allowed dust exposure.
    FeeRateMultiplier { multiplier: u64 },
}

/// The role of the node in an asynchronous payments context.
#[derive(Clone, Copy, Debug, PartialEq, Eq, Structural)]
pub enum AsyncPaymentsRole {
    /// Node acts a client in an async payments context. This means that if possible, it will
    /// instruct its peers to hold HTLCs for it, so that it can go offline.
    Client,
    /// Node acts as a server in an async payments context. This means that it will hold async
    /// payments HTLCs and onion messages for its peers.
    Server,
}

/// A node listens exactly if it has at least one address to listen on. One that does not, or that has no
/// alias, refuses channels that are to be announced; all nodes decide on inbound channels themselves.
pub proof fn law_only_named_listening_nodes_announce(config: Config)
    ensures
        listens(config) <==> config.listening_addresses is Some
            && config.listening_addresses->0@.len() >= 1,
        user_config_of(config).force_announced_channel_preference <==> config.node_alias is None
            || config.listening_addresses is None || config.listening_addresses->0@.len() == 0,
        user_config_of(config).negotiate_anchors_zero_fee_htlc_tx
            <==> config.anchor_channels_config is Some,
        user_config_of(config).manually_accept_inbound_channels,
        !user_config_of(config).announce_for_forwarding,
        !user_config_of(config).accept_forwards_to_priv_channels,
        !user_config_of(config).accept_intercept_htlcs,
        !user_config_of(config).enable_htlc_hold,
        !user_config_of(config).hold_outbound_htlcs_at_next_hop,
        !user_config_of(config).reject_inbound_splices,
        user_config_of(config).max_inbound_htlc_value_in_flight_percent_of_channel == 10,
{
}

/// What a default configuration is: that of a node on the main network with native witness addresses, which
/// trusts no peer, neither listens nor announces itself, and keeps 25000 satoshis for each anchor channel.
pub proof fn law_defaults_are_cautious(config: Config)
    requires
        config.is_default(),
    ensures
        config.network == Network::Bitcoin,
        config.address_type == AddressType::NativeSegwit,
        config.storage_dir_path@ == "/tmp/ldk_node/"@,
        config.trusted_peers_0conf@.len() == 0,
        config.probing_liquidity_limit_multiplier == 3,
        config.anchor_channels_config is Some,
        config.anchor_channels_config->0.trusted_peers_no_reserve@.len() == 0,
        config.anchor_channels_config->0.per_channel_reserve_sats == 25_000,
        config.node_alias is None,
        config.announcement_addresses is None,
        config.route_parameters is None,
        config.scoring_fee_params is None,
        config.scoring_decay_params is None,
        config.address_types_to_monitor@.len() == 0,
        config.onchain_wallet_accounts@.len() == 0,
        !listens(config),
{
}

/// The wallets and the fee rates are synced in the background by default, the fee rates every ten minutes,
/// the wallet every 80 seconds and the channels every 30.
pub proof fn law_the_default_is_to_sync_in_the_background()
    ensures
        EsploraSyncConfig::spec_default().background_sync_config == Some(
            BackgroundSyncConfig::spec_default(),
        ),
        ElectrumSyncConfig::spec_default().background_sync_config == Some(
            BackgroundSyncConfig::spec_default(),
        ),
        ElectrumSyncConfig::spec_default().connection_timeout_secs == 10,
        ElectrumSyncConfig::spec_default().additional_wallet_full_scan_batch_size == 5,
        ElectrumSyncConfig::spec_default().additional_wallet_full_scan_stop_gap == 20,
        BackgroundSyncConfig::spec_default().onchain_wallet_sync_interval_secs == 80,
        BackgroundSyncConfig::spec_default().lightning_wallet_sync_interval_secs == 30,
        BackgroundSyncConfig::spec_default().fee_rate_cache_update_interval_secs == 600,
{
}

/// What a channel charges by default: one satoshi for each payment that is forwarded, nothing by the amount,
/// and 72 blocks to claim it in; a payment that pays less is refused.
pub proof fn law_the_default_fees_of_a_channel()
    ensures
        ChannelConfig::spec_default().forwarding_fee_base_msat == 1000,
        ChannelConfig::spec_default().forwarding_fee_proportional_millionths == 0,
        ChannelConfig::spec_default().cltv_expiry_delta == 72,
        ChannelConfig::spec_default().force_close_avoidance_max_fee_satoshis == 1000,
        !ChannelConfig::spec_default().accept_underpaying_htlcs,
        ChannelConfig::spec_default().max_dust_htlc_exposure is FeeRateMultiplier,
        ChannelConfig::spec_default().max_dust_htlc_exposure->multiplier == 10000,
{
}

/// Each kind of address has a purpose of its own.
pub proof fn law_purposes_tell_kinds_of_addresses_apart(a: AddressType, b: AddressType)
    ensures
        a.purpose() == b.purpose() <==> a == b,
        AddressType::Legacy.purpose() == 44,
        AddressType::NestedSegwit.purpose() == 49,
        AddressType::NativeSegwit.purpose() == 84,
        AddressType::Taproot.purpose() == 86,
{
}

/// Every reason says what is missing.
pub proof fn law_reasons_say_what_is_missing()
    ensures
        AnnounceError::MissingNodeAlias.spec_message()@ == "Node alias is not configured"@,
        AnnounceError::MissingListeningAddresses.spec_message()@
            == "Listening addresses are not configured"@,
        AnnounceError::MissingAliasAndAddresses.spec_message()@
            == "Node alias and listening addresses are not configured"@,
{
}

/// A node may announce channels exactly if it has an alias and an address to listen on, and is told which of
/// them is missing.
pub proof fn law_what_is_missing_for_an_announcement(config: Config, may: Result<(), AnnounceError>)
    requires
        call_ensures(may_announce_channel, (&config,), may),
    ensures
        may is Ok <==> config.node_alias is Some && listens(config),
        may == Err::<(), AnnounceError>(AnnounceError::MissingListeningAddresses)
            <==> config.node_alias is Some && !listens(config),
        may == Err::<(), AnnounceError>(AnnounceError::MissingNodeAlias) <==> config.node_alias
            is None && listens(config),
        may == Err::<(), AnnounceError>(AnnounceError::MissingAliasAndAddresses)
            <==> config.node_alias is None && !listens(config),
{
}

} // verus!
