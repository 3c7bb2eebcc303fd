//! What can be chosen when a node is built.
use crate::builder::error::BuildError;
use crate::config::{
    BitcoindRestClientConfig, Config, ElectrumSyncConfig, EsploraSyncConfig, NodeAlias,
    SocketAddress, BDK_CLIENT_STOP_GAP, WALLET_KEYS_SEED_LEN,
};
use crate::keys::Mnemonic;
use crate::text::trim;
use crate::types::PublicKey;
use vstd::prelude::*;

verus! {

/// Where the node learns of the chain.
#[allow(inconsistent_fields)]
#[derive(Debug)]
pub enum ChainDataSourceConfig {
    Esplora {
        server_url: String,
        headers: Vec<(String, String)>,
        sync_config: Option<EsploraSyncConfig>,
    },
    Electrum { server_url: String, sync_config: Option<ElectrumSyncConfig> },
    Bitcoind {
        rpc_host: String,
        rpc_port: u16,
        rpc_user: String,
        rpc_password: String,
        rest_client_config: Option<BitcoindRestClientConfig>,
    },
}

/// How many scripts a wallet watches beyond the last one that is used, unless told otherwise.
///
/// Reads `bdk_chain::keychain_txout::DEFAULT_LOOKAHEAD`, whose value its source gives.
#[verifier::external_body]
fn default_lookahead() -> (lookahead: u32)
    ensures
        lookahead == 25,
{
    bdk_chain::keychain_txout::DEFAULT_LOOKAHEAD
}

/// How many scripts the wallets of further accounts watch beyond the last one that is used. Where an
/// Electrum server is used, this is what ends its scans.
pub open spec fn lookahead_for(chain: Option<ChainDataSourceConfig>) -> u32 {
    match chain {
        Some(ChainDataSourceConfig::Electrum { sync_config, .. }) => {
            let gap = (match sync_config {
                Some(sync_config) => sync_config,
                None => ElectrumSyncConfig::spec_default(),
            }).additional_wallet_full_scan_stop_gap;
            if gap == 0 {
                1
            } else {
                gap
            }
        },
        Some(ChainDataSourceConfig::Bitcoind { .. }) => 25,
        Some(ChainDataSourceConfig::Esplora { .. }) => BDK_CLIENT_STOP_GAP as u32,
        None => BDK_CLIENT_STOP_GAP as u32,
    }
}

/// How many scripts the wallets of further accounts watch beyond the last one that is used.
pub fn derived_account_lookahead(chain_data_source_config: &Option<ChainDataSourceConfig>) -> (n: u32)
    ensures
        n == lookahead_for(*chain_data_source_config),
{
    match chain_data_source_config {
        Some(ChainDataSourceConfig::Electrum { sync_config, .. }) => {
            let gap: u32 = match sync_config {
                Some(sync_config) => sync_config.additional_wallet_full_scan_stop_gap,
                None => ElectrumSyncConfig::default().additional_wallet_full_scan_stop_gap,
            };
            if gap == 0 {
                1
            } else {
                gap
            }
        },
        Some(ChainDataSourceConfig::Bitcoind { .. }) => default_lookahead(),
        _ => BDK_CLIENT_STOP_GAP as u32,
    }
}

/// Where the node has its seed from.
pub enum EntropySourceConfig {
    SeedFile(String),
    SeedBytes([u8; 64]),
    Bip39Mnemonic { mnemonic: Mnemonic, passphrase: Option<String> },
}

/// What is done to get the seed.
pub enum SeedSource {
    /// This is the seed.
    Seed([u8; 64]),
    /// It is in this file, or is made up and put there.
    File(String),
}

/// Whether a source of the seed is the configured one. The default is a file below the directory that
/// the node stores everything in.
pub open spec fn is_seed_source(
    source: SeedSource,
    config: Config,
    entropy: Option<EntropySourceConfig>,
) -> bool {
    match entropy {
        Some(EntropySourceConfig::SeedBytes(bytes)) => source == SeedSource::Seed(bytes),
        Some(EntropySourceConfig::SeedFile(path)) => source matches SeedSource::File(p) && p@
            == path@,
        Some(EntropySourceConfig::Bip39Mnemonic { mnemonic, passphrase }) => source matches SeedSource::Seed(
            seed,
        ) && seed@ == crate::keys::mnemonic_seed(
            mnemonic.spec_words(),
            match passphrase {
                Some(passphrase) => passphrase@,
                None => ""@,
            },
        ),
        None => source matches SeedSource::File(p) && p@ == config.storage_dir_path@
            + "/keys_seed"@,
    }
}

/// What is done to get the seed.
pub fn seed_source(config: &Config, entropy_source_config: &Option<EntropySourceConfig>) -> (source:
    SeedSource)
    ensures
        is_seed_source(source, *config, *entropy_source_config),
{
    match entropy_source_config {
        Some(EntropySourceConfig::SeedBytes(bytes)) => SeedSource::Seed(*bytes),
        Some(EntropySourceConfig::SeedFile(seed_path)) => SeedSource::File(seed_path.clone()),
        Some(EntropySourceConfig::Bip39Mnemonic { mnemonic, passphrase }) => match passphrase {
            Some(passphrase) => SeedSource::Seed(mnemonic.to_seed(passphrase.as_str())),
            None => SeedSource::Seed(mnemonic.to_seed("")),
        },
        None => {
            let mut path = config.storage_dir_path.clone();
            path.append("/keys_seed");
            SeedSource::File(path)
        },
    }
}

/// The seed that a file held. `None` stands for a file that cannot be read or holds no seed.
pub fn seed_bytes_from_file(read: Option<[u8; 64]>) -> (seed: Result<[u8; 64], BuildError>)
    ensures
        seed == (match read {
            Some(bytes) => Ok::<[u8; 64], BuildError>(bytes),
            None => Err::<[u8; 64], BuildError>(BuildError::InvalidSeedFile),
        }),
{
    match read {
        Some(bytes) => Ok(bytes),
        None => Err(BuildError::InvalidSeedFile),
    }
}

/// The seed that a list of bytes is. It must have the right length.
pub fn seed_bytes_from_list(seed_bytes: &Vec<u8>) -> (seed: Result<[u8; 64], BuildError>)
    ensures
        match seed {
            Ok(seed) => seed@ == seed_bytes@,
            Err(e) => e == BuildError::InvalidSeedBytes && seed_bytes@.len() != WALLET_KEYS_SEED_LEN,
        },
{
    if seed_bytes.len() != WALLET_KEYS_SEED_LEN {
        return Err(BuildError::InvalidSeedBytes);
    }
    let mut bytes: [u8; 64] = [0u8; 64];
    let mut i: usize = 0;
    while i < 64
        invariant
            i <= 64,
            seed_bytes@.len() == 64,
            bytes@.len() == 64,
            forall|j: int| 0 <= j < i ==> bytes@[j] == #[trigger] seed_bytes@[j],
        decreases 64 - i,
    {
        bytes[i] = seed_bytes[i];
        i += 1;
    }
    assert(bytes@ =~= seed_bytes@);
    Ok(bytes)
}

/// Where the node learns of the network.
#[derive(Debug)]
pub enum GossipSourceConfig {
    P2PNetwork,
    RapidGossipSync(String),
}

/// Where the node gets the experience of others with the channels of the network.
#[derive(Debug)]
pub struct PathfindingScoresSyncConfig {
    pub url: String,
}

/// A service that sells channels.
#[derive(Debug)]
pub struct LSPS1ClientConfig {
    pub node_id: PublicKey,
    pub address: SocketAddress,
    pub token: Option<String>,
}

/// A service that opens channels when payments come in.
#[derive(Debug)]
pub struct LSPS2ClientConfig {
    pub node_id: PublicKey,
    pub address: SocketAddress,
    pub token: Option<String>,
}

/// What a node that opens channels for others when payments come in asks for.
#[derive(Clone, Debug)]
pub struct LSPS2ServiceConfig {
    pub require_token: Option<String>,
    pub advertise_service: bool,
    pub channel_opening_fee_ppm: u32,
    pub channel_over_provisioning_ppm: u32,
    pub min_channel_opening_fee_msat: u64,
    pub min_channel_lifetime: u32,
    pub max_client_to_self_delay: u32,
    pub min_payment_size_msat: u64,
    pub max_payment_size_msat: u64,
}

/// Which services the node uses, and which it offers.
#[derive(Debug)]
pub struct LiquiditySourceConfig {
    /// Act as an LSPS1 client connecting to the given service.
    pub lsps1_client: Option<LSPS1ClientConfig>,
    /// Act as an LSPS2 client connecting to the given service.
    pub lsps2_client: Option<LSPS2ClientConfig>,
    /// Act as an LSPS2 service.
    pub lsps2_service: Option<LSPS2ServiceConfig>,
}

impl Default for LiquiditySourceConfig {
    fn default() -> (config: Self)
        ensures
            config == (LiquiditySourceConfig {
                lsps1_client: None,
                lsps2_client: None,
                lsps2_service: None,
            }),
    {
        LiquiditySourceConfig { lsps1_client: None, lsps2_client: None, lsps2_service: None }
    }
}

/// How much is logged.
#[derive(Clone, Copy, Debug, PartialEq, Eq, Structural)]
pub enum LogLevel {
    Gossip,
    Trace,
    Debug,
    Info,
    Warn,
    Error,
}

/// Where the log goes.
#[derive(Debug)]
pub enum LogWriterConfig {
    File { log_file_path: Option<String>, max_log_level: Option<LogLevel> },
    Log,
    /// To a writer that whoever builds the node holds.
    Custom,
}

/// Where the log goes, with everything decided.
#[derive(Debug)]
pub enum LoggerSetup {
    File { log_file_path: String, max_log_level: LogLevel },
    Log,
    Custom,
}

/// The file that is logged to unless another one is configured.
pub open spec fn default_log_file(storage_dir_path: Seq<char>) -> Seq<char> {
    storage_dir_path + "/ldk_node.log"@
}

/// Whether a logger is the configured one. The default is a file below the directory that the node
/// stores everything in.
pub open spec fn is_logger_setup(
    setup: LoggerSetup,
    config: Config,
    log: Option<LogWriterConfig>,
) -> bool {
    match log {
        Some(LogWriterConfig::File { log_file_path: path, max_log_level: level }) => {
            setup matches LoggerSetup::File { log_file_path, max_log_level } && log_file_path@ == (
            match path {
                Some(path) => path@,
                None => default_log_file(config.storage_dir_path@),
            }) && max_log_level == (match level {
                Some(level) => level,
                None => LogLevel::Debug,
            })
        },
        Some(LogWriterConfig::Log) => setup is Log,
        Some(LogWriterConfig::Custom) => setup is Custom,
        None => setup matches LoggerSetup::File { log_file_path, max_log_level } && log_file_path@
            == default_log_file(config.storage_dir_path@) && max_log_level == LogLevel::Debug,
    }
}

/// Where the log goes.
pub fn setup_logger(log_writer_config: &Option<LogWriterConfig>, config: &Config) -> (setup:
    LoggerSetup)
    ensures
        is_logger_setup(setup, *config, *log_writer_config),
{
    match log_writer_config {
        Some(LogWriterConfig::File { log_file_path: path, max_log_level: level }) => {
            let log_file_path = match path {
                Some(path) => path.clone(),
                None => {
                    let mut path = config.storage_dir_path.clone();
                    path.append("/ldk_node.log");
                    path
                },
            };
            let max_log_level = match level {
                Some(level) => *level,
                None => LogLevel::Debug,
            };
            LoggerSetup::File { log_file_path, max_log_level }
        },
        Some(LogWriterConfig::Log) => LoggerSetup::Log,
        Some(LogWriterConfig::Custom) => LoggerSetup::Custom,
        None => {
            let mut log_file_path = config.storage_dir_path.clone();
            log_file_path.append("/ldk_node.log");
            LoggerSetup::File { log_file_path, max_log_level: LogLevel::Debug }
        },
    }
}

/// The bytes of an alias: those of the text without the white space around it.
pub open spec fn alias_bytes(alias: Seq<char>) -> Seq<u8> {
    vstd::utf8::encode_utf8(crate::text::trimmed(alias))
}

/// A list of bytes, filled up with zeros.
pub open spec fn zero_padded(bytes: Seq<u8>, len: nat) -> Seq<u8> {
    Seq::new(
        len,
        |i: int|
            if i < bytes.len() {
                bytes[i]
            } else {
                0u8
            },
    )
}

/// Sanitize the user-provided node alias to ensure that it is a valid protocol-specified UTF-8 string
/// of at most 32 bytes.
pub fn sanitize_alias(alias_str: &str) -> (alias: Result<NodeAlias, BuildError>)
    ensures
        match alias {
            Ok(alias) => alias_bytes(alias_str@).len() <= 32 && alias.0@ == zero_padded(
                alias_bytes(alias_str@),
                32,
            ),
            Err(e) => e == BuildError::InvalidNodeAlias && alias_bytes(alias_str@).len() > 32,
        },
{
    let alias = trim(alias_str).as_bytes();
    let n: usize = alias.len();
    if n > 32 {
        return Err(BuildError::InvalidNodeAlias);
    }
    let mut bytes: [u8; 32] = [0u8; 32];
    let mut i: usize = 0;
    while i < n
        invariant
            i <= n <= 32,
            n == alias@.len(),
            bytes@.len() == 32,
            forall|j: int| 0 <= j < i ==> bytes@[j] == #[trigger] alias@[j],
            forall|j: int| i <= j < 32 ==> #[trigger] bytes@[j] == 0,
        decreases n - i,
    {
        bytes[i] = alias[i];
        i += 1;
    }
    assert(bytes@ =~= zero_padded(alias@, 32));
    Ok(NodeAlias(bytes))
}

/// How far ahead further accounts look: with an Electrum server as far as the scan of their addresses goes
/// on without a hit, and always one script at least; with a full node 25 scripts; and 20 scripts with an
/// Esplora server or with none configured.
pub proof fn law_how_far_accounts_look_ahead(chain: ChainDataSourceConfig)
    ensures
        lookahead_for(None) == 20,
        lookahead_for(Some(chain)) >= 1,
        chain is Esplora ==> lookahead_for(Some(chain)) == 20,
        chain is Bitcoind ==> lookahead_for(Some(chain)) == 25,
        chain matches ChainDataSourceConfig::Electrum { sync_config, .. } ==> (match sync_config {
            Some(config) => lookahead_for(Some(chain)) == config.additional_wallet_full_scan_stop_gap
                || (config.additional_wallet_full_scan_stop_gap == 0 && lookahead_for(Some(chain))
                == 1),
            None => lookahead_for(Some(chain)) == 20,
        }),
{
}

/// A seed that is configured is used as it is, and a file that is configured is read. The seed of a mnemonic
/// depends on its passphrase, which is empty unless it is configured. Without any of them, the seed is in a
/// file below the directory that the node stores everything in.
pub proof fn law_the_configured_seed_is_used(
    source: SeedSource,
    config: Config,
    entropy: EntropySourceConfig,
)
    ensures
        is_seed_source(source, config, None) <==> (source matches SeedSource::File(path) && path@
            == config.storage_dir_path@ + "/keys_seed"@),
        is_seed_source(source, config, Some(entropy)) ==> {
            &&& entropy matches EntropySourceConfig::SeedBytes(bytes) ==> source
                == SeedSource::Seed(bytes)
            &&& entropy matches EntropySourceConfig::SeedFile(path) ==> source is File
                && source->File_0@ == path@
            &&& entropy matches EntropySourceConfig::Bip39Mnemonic {
                mnemonic,
                passphrase: Some(passphrase),
            } ==> source is Seed && source->Seed_0@ == crate::keys::mnemonic_seed(
                mnemonic.spec_words(),
                passphrase@,
            )
            &&& entropy matches EntropySourceConfig::Bip39Mnemonic {
                mnemonic,
                passphrase: None,
            } ==> source is Seed && source->Seed_0@ == crate::keys::mnemonic_seed(
                mnemonic.spec_words(),
                Seq::<char>::empty(),
            )
        },
{
    reveal_strlit("");
    assert(""@ =~= Seq::<char>::empty());
}

/// The log goes where it is configured to go. A file that is not named is `ldk_node.log` below the directory
/// that the node stores everything in, and a level that is not named is that of debugging.
pub proof fn law_the_log_goes_where_it_is_configured_to_go(
    setup: LoggerSetup,
    config: Config,
    writer: LogWriterConfig,
)
    ensures
        is_logger_setup(setup, config, None) ==> setup is File && setup->max_log_level
            == LogLevel::Debug && setup->log_file_path@ == config.storage_dir_path@
            + "/ldk_node.log"@,
        is_logger_setup(setup, config, Some(writer)) ==> {
            &&& writer is Log ==> setup is Log
            &&& writer is Custom ==> setup is Custom
            &&& writer is File ==> setup is File
            &&& writer matches LogWriterConfig::File { log_file_path: Some(path), .. }
                ==> setup->log_file_path@ == path@
            &&& writer matches LogWriterConfig::File { log_file_path: None, .. }
                ==> setup->log_file_path@ == config.storage_dir_path@ + "/ldk_node.log"@
            &&& writer matches LogWriterConfig::File { max_log_level: Some(level), .. }
                ==> setup->max_log_level == level
            &&& writer matches LogWriterConfig::File { max_log_level: None, .. }
                ==> setup->max_log_level == LogLevel::Debug
        },
{
}

/// The bytes of an alias are those of its text without the white space around it, and zeros behind them, so
/// that the alias can be read back.
pub proof fn law_aliases_are_filled_up_with_zeros(alias: Seq<char>, i: int)
    requires
        alias_bytes(alias).len() <= 32,
    ensures
        ({
            let padded = zero_padded(alias_bytes(alias), 32);
            let n = alias_bytes(alias).len();
            &&& padded.len() == 32
            &&& vstd::utf8::decode_utf8(padded.subrange(0, n as int)) == crate::text::trimmed(alias)
            &&& n <= i < 32 ==> padded[i] == 0
        }),
{
    let bytes = alias_bytes(alias);
    assert(zero_padded(bytes, 32).subrange(0, bytes.len() as int) =~= bytes);
    vstd::utf8::encode_utf8_decode_utf8(crate::text::trimmed(alias));
}

/// The seed is taken from what is configured: bytes of 64 as they are, and never any others.
pub proof fn law_seeds_have_sixty_four_bytes(
    list: Vec<u8>,
    seed: Result<[u8; 64], BuildError>,
    bytes: [u8; 64],
    from_file: Result<[u8; 64], BuildError>,
    no_file: Result<[u8; 64], BuildError>,
)
    requires
        call_ensures(seed_bytes_from_list, (&list,), seed),
        call_ensures(seed_bytes_from_file, (Some(bytes),), from_file),
        call_ensures(seed_bytes_from_file, (None,), no_file),
    ensures
        seed is Ok ==> list@.len() == 64 && seed->Ok_0@ == list@,
        list@.len() == 64 ==> seed is Ok,
        seed matches Err(e) ==> e == BuildError::InvalidSeedBytes,
        from_file == Ok::<[u8; 64], BuildError>(bytes),
        no_file == Err::<[u8; 64], BuildError>(BuildError::InvalidSeedFile),
{
    if seed is Ok {
        assert(seed->Ok_0@.len() == 64);
    }
}

/// What is set up is what is configured: the seed of the configured bytes, and a log that goes to the
/// configured file.
pub proof fn law_what_is_configured_is_set_up(
    config: Config,
    bytes: [u8; 64],
    source: SeedSource,
    path: String,
    level: LogLevel,
    log: LoggerSetup,
    default_log: LoggerSetup,
)
    requires
        call_ensures(
            seed_source,
            (&config, &Some(EntropySourceConfig::SeedBytes(bytes))),
            source,
        ),
        call_ensures(
            setup_logger,
            (
                &Some(
                    LogWriterConfig::File {
                        log_file_path: Some(path),
                        max_log_level: Some(level),
                    },
                ),
                &config,
            ),
            log,
        ),
        call_ensures(setup_logger, (&None, &config), default_log),
    ensures
        source == SeedSource::Seed(bytes),
        log is File,
        log->log_file_path@ == path@,
        log->max_log_level == level,
        default_log is File,
        default_log->log_file_path@ == config.storage_dir_path@ + "/ldk_node.log"@,
        default_log->max_log_level == LogLevel::Debug,
{
}

/// An alias is accepted exactly if it takes 32 bytes at most, white space around it aside.
pub proof fn law_aliases_take_thirty_two_bytes(text: &str, alias: Result<NodeAlias, BuildError>)
    requires
        call_ensures(sanitize_alias, (text,), alias),
    ensures
        alias is Ok <==> vstd::utf8::encode_utf8(crate::text::trimmed(text@)).len() <= 32,
        alias matches Err(e) ==> e == BuildError::InvalidNodeAlias,
        alias matches Ok(a) ==> vstd::utf8::encode_utf8(crate::text::trimmed(text@)).is_prefix_of(
            a.0@,
        ),
{
    if alias is Ok {
        let bytes = vstd::utf8::encode_utf8(crate::text::trimmed(text@));
        let NodeAlias(padded) = alias->Ok_0;
        assert(bytes =~= padded@.take(bytes.len() as int));
    }
}

} // verus!
