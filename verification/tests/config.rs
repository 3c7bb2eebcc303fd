use ldk_node::config::{
    default_config, may_announce_channel, AnnounceError, Config, ElectrumSyncConfig,
    EsploraSyncConfig, NodeAlias, SocketAddress,
};
use ldk_node::types::Network;

#[test]
fn node_announce_channel() {
    // Default configuration with node alias and listening addresses unset
    let mut node_config = Config::default();
    assert_eq!(may_announce_channel(&node_config), Err(AnnounceError::MissingAliasAndAddresses));

    // Set node alias with listening addresses unset
    let alias_frm_str = |alias: &str| {
        let mut bytes = [0u8; 32];
        bytes[..alias.as_bytes().len()].copy_from_slice(alias.as_bytes());
        NodeAlias(bytes)
    };
    node_config.node_alias = Some(alias_frm_str("LDK_Node"));
    assert_eq!(may_announce_channel(&node_config), Err(AnnounceError::MissingListeningAddresses));

    // Set announcement addresses with listening addresses unset
    let announcement_address = SocketAddress::TcpIpV4 { addr: [123, 45, 67, 89], port: 9735 };
    node_config.announcement_addresses = Some(vec![announcement_address]);
    assert_eq!(may_announce_channel(&node_config), Err(AnnounceError::MissingListeningAddresses));

    // Set node alias with an empty list of listening addresses
    node_config.listening_addresses = Some(vec![]);
    assert_eq!(may_announce_channel(&node_config), Err(AnnounceError::MissingListeningAddresses));

    // Set node alias with a non-empty list of listening addresses
    let socket_address = SocketAddress::Hostname { hostname: "localhost".to_string(), port: 8000 };
    if let Some(ref mut addresses) = node_config.listening_addresses {
        addresses.push(socket_address);
    }
    assert!(may_announce_channel(&node_config).is_ok());

    node_config.node_alias = None;
    assert_eq!(may_announce_channel(&node_config), Err(AnnounceError::MissingNodeAlias));
}

#[test]
fn announce_errors_say_what_is_missing() {
    assert_eq!(AnnounceError::MissingNodeAlias.message(), "Node alias is not configured");
    assert_eq!(
        AnnounceError::MissingListeningAddresses.message(),
        "Listening addresses are not configured"
    );
    assert_eq!(
        AnnounceError::MissingAliasAndAddresses.message(),
        "Node alias and listening addresses are not configured"
    );
}

#[test]
fn defaults() {
    let config = default_config();
    assert_eq!(config.storage_dir_path, "/tmp/ldk_node/");
    assert_eq!(config.network, Network::Bitcoin);
    assert_eq!(config.probing_liquidity_limit_multiplier, 3);
    assert_eq!(config.anchor_channels_config.unwrap().per_channel_reserve_sats, 25_000);
    let background = EsploraSyncConfig::default().background_sync_config.unwrap();
    assert_eq!(background.onchain_wallet_sync_interval_secs, 80);
    assert_eq!(background.lightning_wallet_sync_interval_secs, 30);
    assert_eq!(background.fee_rate_cache_update_interval_secs, 600);
    assert_eq!(ElectrumSyncConfig::default().connection_timeout_secs, 10);
}

#[test]
fn the_user_config_follows_the_trusted_setup() {
    let mut config = default_config();
    let user_config = ldk_node::config::default_user_config(&config);
    assert!(user_config.negotiate_anchors_zero_fee_htlc_tx);
    assert!(user_config.manually_accept_inbound_channels);
    config.anchor_channels_config = None;
    let user_config = ldk_node::config::default_user_config(&config);
    assert!(!user_config.negotiate_anchors_zero_fee_htlc_tx);
}
