//! The accounts of the on-chain wallet.
use crate::builder::error::BuildError;
use crate::config::{
    AddressType, Config, OnchainWalletAccount, OnchainWalletAccountConfig,
    MAX_ONCHAIN_WALLET_ACCOUNT_INDEX,
};
use crate::keys::{
    account_keychain_derivation_path, derive_account_xpub_string, KeychainKind, Xpriv,
};
use crate::metrics::contains_account;
use crate::text::{text_eq, trim};
use crate::types::{BestBlock, Network};
use bdk_wallet::template::{
    Bip44, Bip49, Bip84, Bip86, DescriptorTemplate, P2Pkh, P2Wpkh, P2Wpkh_P2Sh, P2TR,
};
use bdk_wallet::KeychainKind::{External, Internal};
use vstd::prelude::*;

verus! {

/// Whether a configured account is one of the wallet's, above the first one, with the public key that
/// the seed gives it.
pub open spec fn is_valid_account(
    configured: OnchainWalletAccountConfig,
    network: Network,
    master: Seq<u8>,
) -> bool {
    &&& 1 <= configured.account_index <= MAX_ONCHAIN_WALLET_ACCOUNT_INDEX
    &&& crate::keys::account_public_key(
        master,
        network,
        configured.address_type,
        configured.account_index,
    ) == Some(crate::text::trimmed(configured.xpub@))
}

/// The account that a configuration speaks of.
pub open spec fn account_of(configured: OnchainWalletAccountConfig) -> OnchainWalletAccount {
    OnchainWalletAccount {
        address_type: configured.address_type,
        account_index: configured.account_index,
    }
}

/// The accounts of a list of configurations, each once.
pub open spec fn distinct_accounts(configured: Seq<OnchainWalletAccountConfig>) -> Seq<
    OnchainWalletAccount,
>
    decreases configured.len(),
{
    if configured.len() == 0 {
        Seq::empty()
    } else {
        crate::chain::sync::marked(
            distinct_accounts(configured.drop_last()),
            account_of(configured.last()),
        )
    }
}

/// Checks the configured accounts against the seed, and lists each of them once. A single one that is
/// not valid spoils the configuration.
pub fn validate_configured_onchain_wallet_accounts(config: &Config, xprv: &Xpriv) -> (accounts:
    Result<Vec<OnchainWalletAccount>, BuildError>)
    ensures
        match accounts {
            Ok(accounts) => {
                &&& forall|i: int|
                    0 <= i < config.onchain_wallet_accounts@.len() ==> is_valid_account(
                        #[trigger] config.onchain_wallet_accounts@[i],
                        config.network,
                        xprv.spec_bytes(),
                    )
                &&& accounts@ == distinct_accounts(config.onchain_wallet_accounts@)
            },
            Err(e) => {
                &&& e == BuildError::InvalidSeedBytes
                &&& exists|i: int|
                    0 <= i < config.onchain_wallet_accounts@.len() && !is_valid_account(
                        #[trigger] config.onchain_wallet_accounts@[i],
                        config.network,
                        xprv.spec_bytes(),
                    )
            },
        },
{
    let ghost all = config.onchain_wallet_accounts@;
    let mut accounts: Vec<OnchainWalletAccount> = Vec::new();
    let mut i: usize = 0;
    assert(all.subrange(0, 0) =~= Seq::empty());
    while i < config.onchain_wallet_accounts.len()
        invariant
            i <= all.len(),
            all == config.onchain_wallet_accounts@,
            forall|j: int|
                0 <= j < i ==> is_valid_account(
                    #[trigger] all[j],
                    config.network,
                    xprv.spec_bytes(),
                ),
            accounts@ == distinct_accounts(all.subrange(0, i as int)),
        decreases all.len() - i,
    {
        let configured = &config.onchain_wallet_accounts[i];
        let account_index: u32 = configured.account_index;
        proof {
            assert(*configured == all[i as int]);
            assert(all.subrange(0, i + 1).drop_last() =~= all.subrange(0, i as int));
            assert(all.subrange(0, i + 1).last() == all[i as int]);
        }
        if account_index == 0 || account_index > MAX_ONCHAIN_WALLET_ACCOUNT_INDEX {
            assert(!is_valid_account(all[i as int], config.network, xprv.spec_bytes()));
            return Err(BuildError::InvalidSeedBytes);
        }
        let account = OnchainWalletAccount { address_type: configured.address_type, account_index };
        let expected_xpub = match derive_account_xpub_string(
            xprv,
            config.network,
            configured.address_type,
            account_index,
        ) {
            Some(xpub) => xpub,
            None => {
                assert(!is_valid_account(all[i as int], config.network, xprv.spec_bytes()));
                return Err(BuildError::InvalidSeedBytes);
            },
        };
        if !text_eq(trim(configured.xpub.as_str()), expected_xpub.as_str()) {
            assert(!is_valid_account(all[i as int], config.network, xprv.spec_bytes()));
            return Err(BuildError::InvalidSeedBytes);
        }
        if !contains_account(&accounts, account) {
            accounts.push(account);
        }
        i += 1;
    }
    assert(all.subrange(0, i as int) =~= all);
    Ok(accounts)
}

/// The accounts that are listed are distinct.
pub proof fn law_accounts_are_listed_once(configured: Seq<OnchainWalletAccountConfig>)
    ensures
        distinct_accounts(configured).no_duplicates(),
    decreases configured.len(),
{
    if configured.len() > 0 {
        law_accounts_are_listed_once(configured.drop_last());
        let front = distinct_accounts(configured.drop_last());
        let account = account_of(configured.last());
        if !front.contains(account) {
            let all = front.push(account);
            assert forall|i: int, j: int|
                0 <= i < all.len() && 0 <= j < all.len() && i != j implies all[i] != all[j] by {
                if i < front.len() && j < front.len() {
                    assert(front[i] != front[j]);
                } else if i < front.len() {
                    assert(front[i] != account);
                } else if j < front.len() {
                    assert(front[j] != account);
                }
            }
        }
    }
}

/// The path of the keys of a keychain of the first account of a kind of address.
pub open spec fn standard_path(
    address_type: AddressType,
    network: Network,
    keychain: KeychainKind,
) -> Seq<u32> {
    crate::keys::account_path(address_type, network, 0).push(keychain.step())
}

/// The public descriptor that the template `P2Pkh` of `bdk_wallet::template` builds of keys at a path below
/// a master key. `None` where it builds none.
pub uninterp spec fn p2pkh_text(key: Seq<u8>, path: Seq<u32>) -> Option<Seq<char>>;

/// The public descriptor of the template `P2Pkh`, with keys at a path below a master key.
///
/// Calls `build` of `bdk_wallet::template::P2Pkh`, which depends on the key and the path, and not on the
/// network, and `to_string` on the descriptor that it gives.
#[verifier::external_body]
fn build_p2pkh(key: &[u8; 78], path: &Vec<u32>) -> (text: Option<String>)
    requires
        crate::keys::is_private_key(key@),
    ensures
        match text {
            Some(text) => p2pkh_text(key@, path@) == Some(text@),
            None => p2pkh_text(key@, path@) is None,
        },
{
    let master = bitcoin::bip32::Xpriv::decode(key).expect("the bytes are a key");
    let steps: Vec<bitcoin::bip32::ChildNumber> = path.iter().map(|step| (*step).into()).collect();
    let key = (master, bitcoin::bip32::DerivationPath::from(steps));
    let built = P2Pkh(key).build(bitcoin::Network::Bitcoin);
    built.ok().map(|built| built.0.to_string())
}

/// The public descriptor of the template `Bip44` for a keychain.
///
/// Calls `build` of `bdk_wallet::template::Bip44`, which builds the template `P2Pkh` with the keys at the
/// path of the first account, and `to_string` on the descriptor that it gives.
#[verifier::external_body]
fn build_bip44(key: &[u8; 78], network: Network, keychain: KeychainKind) -> (text: Option<String>)
    requires
        crate::keys::is_private_key(key@),
    ensures
        match text {
            Some(text) => p2pkh_text(
                key@,
                standard_path(AddressType::Legacy, network, keychain),
            ) == Some(text@),
            None => p2pkh_text(
                key@,
                standard_path(AddressType::Legacy, network, keychain),
            ) is None,
        },
{
    let key = bitcoin::bip32::Xpriv::decode(key).expect("the bytes are a key");
    let kind = match keychain {
        KeychainKind::External => External,
        KeychainKind::Internal => Internal,
    };
    let network = match network {
        Network::Bitcoin => bitcoin::Network::Bitcoin,
        Network::Testnet => bitcoin::Network::Testnet,
        Network::Testnet4 => bitcoin::Network::Testnet4,
        Network::Signet => bitcoin::Network::Signet,
        Network::Regtest => bitcoin::Network::Regtest,
    };
    Bip44(key, kind).build(network).ok().map(|built| built.0.to_string())
}

/// The public descriptor that the template `P2Wpkh_P2Sh` of `bdk_wallet::template` builds of keys at a path below
/// a master key. `None` where it builds none.
pub uninterp spec fn p2wpkh_p2sh_text(key: Seq<u8>, path: Seq<u32>) -> Option<Seq<char>>;

/// The public descriptor of the template `P2Wpkh_P2Sh`, with keys at a path below a master key.
///
/// Calls `build` of `bdk_wallet::template::P2Wpkh_P2Sh`, which depends on the key and the path, and not on the
/// network, and `to_string` on the descriptor that it gives.
#[verifier::external_body]
fn build_p2wpkh_p2sh(key: &[u8; 78], path: &Vec<u32>) -> (text: Option<String>)
    requires
        crate::keys::is_private_key(key@),
    ensures
        match text {
            Some(text) => p2wpkh_p2sh_text(key@, path@) == Some(text@),
            None => p2wpkh_p2sh_text(key@, path@) is None,
        },
{
    let master = bitcoin::bip32::Xpriv::decode(key).expect("the bytes are a key");
    let steps: Vec<bitcoin::bip32::ChildNumber> = path.iter().map(|step| (*step).into()).collect();
    let key = (master, bitcoin::bip32::DerivationPath::from(steps));
    let built = P2Wpkh_P2Sh(key).build(bitcoin::Network::Bitcoin);
    built.ok().map(|built| built.0.to_string())
}

/// The public descriptor of the template `Bip49` for a keychain.
///
/// Calls `build` of `bdk_wallet::template::Bip49`, which builds the template `P2Wpkh_P2Sh` with the keys at the
/// path of the first account, and `to_string` on the descriptor that it gives.
#[verifier::external_body]
fn build_bip49(key: &[u8; 78], network: Network, keychain: KeychainKind) -> (text: Option<String>)
    requires
        crate::keys::is_private_key(key@),
    ensures
        match text {
            Some(text) => p2wpkh_p2sh_text(
                key@,
                standard_path(AddressType::NestedSegwit, network, keychain),
            ) == Some(text@),
            None => p2wpkh_p2sh_text(
                key@,
                standard_path(AddressType::NestedSegwit, network, keychain),
            ) is None,
        },
{
    let key = bitcoin::bip32::Xpriv::decode(key).expect("the bytes are a key");
    let kind = match keychain {
        KeychainKind::External => External,
        KeychainKind::Internal => Internal,
    };
    let network = match network {
        Network::Bitcoin => bitcoin::Network::Bitcoin,
        Network::Testnet => bitcoin::Network::Testnet,
        Network::Testnet4 => bitcoin::Network::Testnet4,
        Network::Signet => bitcoin::Network::Signet,
        Network::Regtest => bitcoin::Network::Regtest,
    };
    Bip49(key, kind).build(network).ok().map(|built| built.0.to_string())
}

/// The public descriptor that the template `P2Wpkh` of `bdk_wallet::template` builds of keys at a path below
/// a master key. `None` where it builds none.
pub uninterp spec fn p2wpkh_text(key: Seq<u8>, path: Seq<u32>) -> Option<Seq<char>>;

/// The public descriptor of the template `P2Wpkh`, with keys at a path below a master key.
///
/// Calls `build` of `bdk_wallet::template::P2Wpkh`, which depends on the key and the path, and not on the
/// network, and `to_string` on the descriptor that it gives.
#[verifier::external_body]
fn build_p2wpkh(key: &[u8; 78], path: &Vec<u32>) -> (text: Option<String>)
    requires
        crate::keys::is_private_key(key@),
    ensures
        match text {
            Some(text) => p2wpkh_text(key@, path@) == Some(text@),
            None => p2wpkh_text(key@, path@) is None,
        },
{
    let master = bitcoin::bip32::Xpriv::decode(key).expect("the bytes are a key");
    let steps: Vec<bitcoin::bip32::ChildNumber> = path.iter().map(|step| (*step).into()).collect();
    let key = (master, bitcoin::bip32::DerivationPath::from(steps));
    let built = P2Wpkh(key).build(bitcoin::Network::Bitcoin);
    built.ok().map(|built| built.0.to_string())
}

/// The public descriptor of the template `Bip84` for a keychain.
///
/// Calls `build` of `bdk_wallet::template::Bip84`, which builds the template `P2Wpkh` with the keys at the
/// path of the first account, and `to_string` on the descriptor that it gives.
#[verifier::external_body]
fn build_bip84(key: &[u8; 78], network: Network, keychain: KeychainKind) -> (text: Option<String>)
    requires
        crate::keys::is_private_key(key@),
    ensures
        match text {
            Some(text) => p2wpkh_text(
                key@,
                standard_path(AddressType::NativeSegwit, network, keychain),
            ) == Some(text@),
            None => p2wpkh_text(
                key@,
                standard_path(AddressType::NativeSegwit, network, keychain),
            ) is None,
        },
{
    let key = bitcoin::bip32::Xpriv::decode(key).expect("the bytes are a key");
    let kind = match keychain {
        KeychainKind::External => External,
        KeychainKind::Internal => Internal,
    };
    let network = match network {
        Network::Bitcoin => bitcoin::Network::Bitcoin,
        Network::Testnet => bitcoin::Network::Testnet,
        Network::Testnet4 => bitcoin::Network::Testnet4,
        Network::Signet => bitcoin::Network::Signet,
        Network::Regtest => bitcoin::Network::Regtest,
    };
    Bip84(key, kind).build(network).ok().map(|built| built.0.to_string())
}

/// The public descriptor that the template `P2TR` of `bdk_wallet::template` builds of keys at a path below
/// a master key. `None` where it builds none.
pub uninterp spec fn p2tr_text(key: Seq<u8>, path: Seq<u32>) -> Option<Seq<char>>;

/// The public descriptor of the template `P2TR`, with keys at a path below a master key.
///
/// Calls `build` of `bdk_wallet::template::P2TR`, which depends on the key and the path, and not on the
/// network, and `to_string` on the descriptor that it gives.
#[verifier::external_body]
fn build_p2tr(key: &[u8; 78], path: &Vec<u32>) -> (text: Option<String>)
    requires
        crate::keys::is_private_key(key@),
    ensures
        match text {
            Some(text) => p2tr_text(key@, path@) == Some(text@),
            None => p2tr_text(key@, path@) is None,
        },
{
    let master = bitcoin::bip32::Xpriv::decode(key).expect("the bytes are a key");
    let steps: Vec<bitcoin::bip32::ChildNumber> = path.iter().map(|step| (*step).into()).collect();
    let key = (master, bitcoin::bip32::DerivationPath::from(steps));
    let built = P2TR(key).build(bitcoin::Network::Bitcoin);
    built.ok().map(|built| built.0.to_string())
}

/// The public descriptor of the template `Bip86` for a keychain.
///
/// Calls `build` of `bdk_wallet::template::Bip86`, which builds the template `P2TR` with the keys at the
/// path of the first account, and `to_string` on the descriptor that it gives.
#[verifier::external_body]
fn build_bip86(key: &[u8; 78], network: Network, keychain: KeychainKind) -> (text: Option<String>)
    requires
        crate::keys::is_private_key(key@),
    ensures
        match text {
            Some(text) => p2tr_text(
                key@,
                standard_path(AddressType::Taproot, network, keychain),
            ) == Some(text@),
            None => p2tr_text(
                key@,
                standard_path(AddressType::Taproot, network, keychain),
            ) is None,
        },
{
    let key = bitcoin::bip32::Xpriv::decode(key).expect("the bytes are a key");
    let kind = match keychain {
        KeychainKind::External => External,
        KeychainKind::Internal => Internal,
    };
    let network = match network {
        Network::Bitcoin => bitcoin::Network::Bitcoin,
        Network::Testnet => bitcoin::Network::Testnet,
        Network::Testnet4 => bitcoin::Network::Testnet4,
        Network::Signet => bitcoin::Network::Signet,
        Network::Regtest => bitcoin::Network::Regtest,
    };
    Bip86(key, kind).build(network).ok().map(|built| built.0.to_string())
}

/// The public descriptor of the scripts of a kind of address, with keys at a path below a master key.
pub open spec fn descriptor_text(
    key: Seq<u8>,
    address_type: AddressType,
    path: Seq<u32>,
) -> Option<Seq<char>> {
    match address_type {
        AddressType::Legacy => p2pkh_text(key, path),
        AddressType::NestedSegwit => p2wpkh_p2sh_text(key, path),
        AddressType::NativeSegwit => p2wpkh_text(key, path),
        AddressType::Taproot => p2tr_text(key, path),
    }
}

fn build_descriptor(key: &[u8; 78], address_type: AddressType, path: &Vec<u32>) -> (text: Option<
    String,
>)
    requires
        crate::keys::is_private_key(key@),
    ensures
        match text {
            Some(text) => descriptor_text(key@, address_type, path@) == Some(text@),
            None => descriptor_text(key@, address_type, path@) is None,
        },
{
    match address_type {
        AddressType::Legacy => build_p2pkh(key, path),
        AddressType::NestedSegwit => build_p2wpkh_p2sh(key, path),
        AddressType::NativeSegwit => build_p2wpkh(key, path),
        AddressType::Taproot => build_p2tr(key, path),
    }
}

fn build_standard_descriptor(
    key: &[u8; 78],
    address_type: AddressType,
    network: Network,
    keychain: KeychainKind,
) -> (text: Option<String>)
    requires
        crate::keys::is_private_key(key@),
    ensures
        match text {
            Some(text) => descriptor_text(
                key@,
                address_type,
                standard_path(address_type, network, keychain),
            ) == Some(text@),
            None => descriptor_text(
                key@,
                address_type,
                standard_path(address_type, network, keychain),
            ) is None,
        },
{
    match address_type {
        AddressType::Legacy => build_bip44(key, network, keychain),
        AddressType::NestedSegwit => build_bip49(key, network, keychain),
        AddressType::NativeSegwit => build_bip84(key, network, keychain),
        AddressType::Taproot => build_bip86(key, network, keychain),
    }
}

/// How the scripts of a keychain of an account are made.
#[derive(Debug)]
pub enum DescriptorPlan {
    /// As the standards have it, below the master key. The first account of each kind keeps to that.
    Standard { address_type: AddressType, keychain: KeychainKind },
    /// With the whole path, which has the index of the account in it.
    AtPath { address_type: AddressType, path: Vec<u32> },
}

/// Whether a plan is the one for a keychain of an account.
pub open spec fn is_plan_for(
    plan: DescriptorPlan,
    account: OnchainWalletAccount,
    network: Network,
    keychain: KeychainKind,
) -> bool {
    if account.account_index == 0 {
        plan == (DescriptorPlan::Standard { address_type: account.address_type, keychain })
    } else {
        plan matches DescriptorPlan::AtPath { address_type, path } && address_type
            == account.address_type && path@ == crate::keys::account_path(
            account.address_type,
            network,
            account.account_index,
        ).push(keychain.step())
    }
}

/// How the scripts of a keychain of an account are made, where there is such an account.
pub fn descriptor_plan(
    account: OnchainWalletAccount,
    network: Network,
    keychain: KeychainKind,
) -> (plan: Result<DescriptorPlan, BuildError>)
    ensures
        match plan {
            Ok(plan) => account.account_index <= MAX_ONCHAIN_WALLET_ACCOUNT_INDEX && is_plan_for(
                plan,
                account,
                network,
                keychain,
            ),
            Err(e) => e == BuildError::InvalidSeedBytes && account.account_index
                > MAX_ONCHAIN_WALLET_ACCOUNT_INDEX,
        },
{
    if account.account_index == 0 {
        return Ok(DescriptorPlan::Standard { address_type: account.address_type, keychain });
    }
    match account_keychain_derivation_path(
        account.address_type,
        network,
        account.account_index,
        keychain,
    ) {
        None => Err(BuildError::InvalidSeedBytes),
        Some(path) => Ok(DescriptorPlan::AtPath { address_type: account.address_type, path }),
    }
}

/// The public descriptor of a keychain of an account: that of the keys at the path of the account,
/// whichever account it is.
pub open spec fn account_descriptor(
    account: OnchainWalletAccount,
    master: Seq<u8>,
    network: Network,
    keychain: KeychainKind,
) -> Option<Seq<char>> {
    descriptor_text(
        master,
        account.address_type,
        crate::keys::account_path(account.address_type, network, account.account_index).push(
            keychain.step(),
        ),
    )
}

/// The public descriptor of a keychain of an account.
pub fn public_descriptor(
    account: OnchainWalletAccount,
    master_xprv: &Xpriv,
    network: Network,
    keychain: KeychainKind,
) -> (text: Result<String, BuildError>)
    ensures
        match text {
            Ok(text) => {
                &&& account.account_index <= MAX_ONCHAIN_WALLET_ACCOUNT_INDEX
                &&& account_descriptor(account, master_xprv.spec_bytes(), network, keychain)
                    == Some(text@)
            },
            Err(e) => if account.account_index > MAX_ONCHAIN_WALLET_ACCOUNT_INDEX {
                e == BuildError::InvalidSeedBytes
            } else {
                &&& e == BuildError::WalletSetupFailed
                &&& account_descriptor(
                    account,
                    master_xprv.spec_bytes(),
                    network,
                    keychain,
                ) is None
            },
        },
{
    let plan = match descriptor_plan(account, network, keychain) {
        Ok(plan) => plan,
        Err(e) => return Err(e),
    };
    let key = master_xprv.as_bytes();
    let text = match plan {
        DescriptorPlan::Standard { address_type, keychain } => build_standard_descriptor(
            key,
            address_type,
            network,
            keychain,
        ),
        DescriptorPlan::AtPath { address_type, path } => build_descriptor(key, address_type, &path),
    };
    match text {
        Some(text) => Ok(text),
        None => Err(BuildError::WalletSetupFailed),
    }
}

/// How an attempt to load a wallet ended.
pub enum WalletLoad<W> {
    Loaded(W),
    /// There is none in the store.
    Missing,
    /// The one in the store is for another network.
    NetworkMismatch,
    /// It cannot be loaded.
    Failed,
}

/// What follows an attempt to load a wallet.
pub enum AfterLoad<W> {
    /// There it is.
    Use(W),
    /// A new one is made.
    Create,
    Fail(BuildError),
}

/// What follows an attempt to load a wallet.
pub fn after_wallet_load<W>(load: WalletLoad<W>) -> (after: AfterLoad<W>)
    ensures
        after == (match load {
            WalletLoad::Loaded(wallet) => AfterLoad::Use(wallet),
            WalletLoad::Missing => AfterLoad::Create,
            WalletLoad::NetworkMismatch => AfterLoad::Fail(BuildError::NetworkMismatch),
            WalletLoad::Failed => AfterLoad::Fail(BuildError::WalletSetupFailed),
        }),
{
    match load {
        WalletLoad::Loaded(wallet) => AfterLoad::Use(wallet),
        WalletLoad::Missing => AfterLoad::Create,
        WalletLoad::NetworkMismatch => AfterLoad::Fail(BuildError::NetworkMismatch),
        WalletLoad::Failed => AfterLoad::Fail(BuildError::WalletSetupFailed),
    }
}

/// A wallet, and whether it was in the store. One that cannot be made is a failure.
pub fn created_wallet<W>(created: Option<W>) -> (wallet: Result<(W, bool), BuildError>)
    ensures
        wallet == (match created {
            Some(wallet) => Ok::<(W, bool), BuildError>((wallet, false)),
            None => Err::<(W, bool), BuildError>(BuildError::WalletSetupFailed),
        }),
{
    match created {
        Some(wallet) => Ok((wallet, false)),
        None => Err(BuildError::WalletSetupFailed),
    }
}

/// The block that a wallet is told of before its first sync. Wallets from the store keep the tip they
/// know, so that they can catch up; new ones start at the known tip.
pub fn initial_checkpoint(loaded_from_store: bool, chain_tip: Option<BestBlock>) -> (checkpoint:
    Option<BestBlock>)
    ensures
        checkpoint == (if loaded_from_store {
            None
        } else {
            chain_tip
        }),
{
    if loaded_from_store {
        None
    } else {
        chain_tip
    }
}

/// An account whose wallet is built besides the primary one.
#[derive(Clone, Copy, Debug, PartialEq, Eq, Structural)]
pub struct AdditionalWallet {
    pub account: OnchainWalletAccount,
    /// How many scripts are watched beyond the last one that is used, where it is not the default.
    pub lookahead: Option<u32>,
    /// Whether the node is built without it where it cannot be built.
    pub optional: bool,
}

/// The wallets that are built besides the primary one: the first account of each further kind of
/// address, which the node can do without, then the configured accounts, which it cannot do without.
pub open spec fn wallets_for(
    address_types: Seq<AddressType>,
    configured: Seq<OnchainWalletAccount>,
    lookahead: u32,
) -> Seq<AdditionalWallet> {
    address_types.map_values(
        |t: AddressType|
            AdditionalWallet {
                account: OnchainWalletAccount { address_type: t, account_index: 0 },
                lookahead: None,
                optional: true,
            },
    ) + configured.map_values(
        |a: OnchainWalletAccount|
            AdditionalWallet { account: a, lookahead: Some(lookahead), optional: false },
    )
}

/// The wallets that are built besides the primary one.
pub fn additional_wallets(
    address_types: &Vec<AddressType>,
    configured_accounts: &Vec<OnchainWalletAccount>,
    derived_account_lookahead: u32,
) -> (wallets: Vec<AdditionalWallet>)
    ensures
        wallets@ == wallets_for(address_types@, configured_accounts@, derived_account_lookahead),
{
    let mut wallets: Vec<AdditionalWallet> = Vec::new();
    let ghost all = wallets_for(address_types@, configured_accounts@, derived_account_lookahead);
    let mut i: usize = 0;
    while i < address_types.len()
        invariant
            i <= address_types@.len(),
            all == wallets_for(address_types@, configured_accounts@, derived_account_lookahead),
            wallets@ =~= all.subrange(0, i as int),
        decreases address_types@.len() - i,
    {
        wallets.push(
            AdditionalWallet {
                account: OnchainWalletAccount::account_zero(address_types[i]),
                lookahead: None,
                optional: true,
            },
        );
        i += 1;
    }
    let mut j: usize = 0;
    let n: usize = address_types.len();
    while j < configured_accounts.len()
        invariant
            j <= configured_accounts@.len(),
            n == address_types@.len(),
            all == wallets_for(address_types@, configured_accounts@, derived_account_lookahead),
            wallets@ =~= all.subrange(0, n + j),
        decreases configured_accounts@.len() - j,
    {
        wallets.push(
            AdditionalWallet {
                account: configured_accounts[j],
                lookahead: Some(derived_account_lookahead),
                optional: false,
            },
        );
        j += 1;
    }
    assert(wallets@ =~= all);
    wallets
}

/// The first failure of a wallet that the node cannot do without.
pub open spec fn first_failure<W>(
    plan: Seq<AdditionalWallet>,
    built: Seq<Result<W, BuildError>>,
) -> Option<BuildError>
    decreases built.len(),
{
    if built.len() == 0 {
        None
    } else if first_failure(plan, built.drop_last()) is Some {
        first_failure(plan, built.drop_last())
    } else {
        match built.last() {
            Err(e) => if plan[built.len() - 1].optional {
                None
            } else {
                Some(e)
            },
            Ok(_) => None,
        }
    }
}

/// The wallets that were built, with their accounts.
pub open spec fn built_wallets<W>(
    plan: Seq<AdditionalWallet>,
    built: Seq<Result<W, BuildError>>,
) -> Seq<(OnchainWalletAccount, W)>
    decreases built.len(),
{
    if built.len() == 0 {
        Seq::empty()
    } else {
        match built.last() {
            Ok(wallet) => built_wallets(plan, built.drop_last()).push(
                (plan[built.len() - 1].account, wallet),
            ),
            Err(_) => built_wallets(plan, built.drop_last()),
        }
    }
}

/// The wallets that were built, one after another as planned. The node can do without some of those that
/// could not be built; the first failure of another ends the matter.
pub fn build_additional_wallets<W>(
    plan: &Vec<AdditionalWallet>,
    built: Vec<Result<W, BuildError>>,
) -> (wallets: Result<Vec<(OnchainWalletAccount, W)>, BuildError>)
    requires
        built@.len() <= plan@.len(),
        built@.len() == plan@.len() || first_failure(plan@, built@) is Some,
    ensures
        match first_failure(plan@, built@) {
            Some(e) => wallets == Err::<Vec<(OnchainWalletAccount, W)>, BuildError>(e),
            None => wallets matches Ok(wallets) && wallets@ == built_wallets(plan@, built@),
        },
{
    let ghost all = built@;
    let mut rest = built;
    let n: usize = plan.len();
    let mut wallets: Vec<(OnchainWalletAccount, W)> = Vec::new();
    let mut i: usize = 0;
    assert(all.subrange(0, 0) =~= Seq::empty());
    assert(rest@ =~= all.subrange(0, all.len() as int));
    while rest.len() > 0
        invariant
            i <= all.len() <= n,
            n == plan@.len(),
            all == built@,
            rest@ == all.subrange(i as int, all.len() as int),
            wallets@ == built_wallets(plan@, all.subrange(0, i as int)),
            first_failure(plan@, all.subrange(0, i as int)) is None,
        decreases rest@.len(),
    {
        let result = rest.remove(0);
        let ghost now = all.subrange(0, i + 1);
        proof {
            assert(result == all[i as int]);
            assert(rest@ =~= all.subrange(i + 1, all.len() as int));
            assert(now.drop_last() =~= all.subrange(0, i as int));
            assert(now.last() == result);
        }
        match result {
            Ok(wallet) => {
                wallets.push((plan[i].account, wallet));
            },
            Err(e) => {
                if !plan[i].optional {
                    proof {
                        lemma_first_failure_stays(plan@, all, i + 1);
                    }
                    return Err(e);
                }
            },
        }
        i += 1;
    }
    assert(all.subrange(0, i as int) =~= all);
    Ok(wallets)
}

/// A failure stays the first one whatever follows.
proof fn lemma_first_failure_stays<W>(
    plan: Seq<AdditionalWallet>,
    built: Seq<Result<W, BuildError>>,
    n: int,
)
    requires
        0 <= n <= built.len(),
        first_failure(plan, built.subrange(0, n)) is Some,
    ensures
        first_failure(plan, built) == first_failure(plan, built.subrange(0, n)),
    decreases built.len() - n,
{
    if n < built.len() {
        assert(built.subrange(0, n + 1).drop_last() =~= built.subrange(0, n));
        lemma_first_failure_stays(plan, built, n + 1);
    } else {
        assert(built.subrange(0, n) =~= built);
    }
}

/// An account is listed exactly if it is configured, by the kind of its addresses and its index.
pub proof fn law_every_configured_account_is_listed(
    configured: Seq<OnchainWalletAccountConfig>,
    account: OnchainWalletAccount,
)
    ensures
        distinct_accounts(configured).contains(account) <==> exists|i: int|
            0 <= i < configured.len() && (#[trigger] configured[i]).address_type
                == account.address_type && configured[i].account_index == account.account_index,
    decreases configured.len(),
{
    let listed = distinct_accounts(configured);
    if configured.len() > 0 {
        let front = configured.drop_last();
        let before = distinct_accounts(front);
        let last = account_of(configured.last());
        law_every_configured_account_is_listed(front, account);
        if before.contains(account) {
            let k = choose|k: int| 0 <= k < before.len() && before[k] == account;
            assert(listed[k] == account);
            let i = choose|i: int|
                0 <= i < front.len() && (#[trigger] front[i]).address_type == account.address_type
                    && front[i].account_index == account.account_index;
            assert(configured[i] == front[i]);
        }
        if last == account {
            assert(configured[configured.len() - 1].address_type == account.address_type);
            if !before.contains(account) {
                assert(listed[before.len() as int] == account);
            }
        }
        if exists|i: int|
            0 <= i < configured.len() && (#[trigger] configured[i]).address_type
                == account.address_type && configured[i].account_index == account.account_index {
            let i = choose|i: int|
                0 <= i < configured.len() && (#[trigger] configured[i]).address_type
                    == account.address_type && configured[i].account_index
                    == account.account_index;
            if i < front.len() {
                assert(front[i] == configured[i]);
            } else {
                assert(last == account);
            }
        }
        if listed.contains(account) && !before.contains(account) {
            let k = choose|k: int| 0 <= k < listed.len() && listed[k] == account;
            if k < before.len() {
                assert(before[k] == account);
            }
        }
    }
}

/// A configured account is valid exactly if it is above the first one, has an index that can be hardened,
/// and is configured with the public key that the seed gives the account of its kind and index on this
/// network, white space around it aside.
pub proof fn law_valid_accounts_have_the_key_of_the_seed(
    configured: OnchainWalletAccountConfig,
    network: Network,
    master: Seq<u8>,
)
    ensures
        is_valid_account(configured, network, master) <==> configured.account_index != 0
            && configured.account_index <= 0x7fff_ffff && (crate::keys::derived_key(
            master,
            crate::keys::account_path(
                configured.address_type,
                network,
                configured.account_index,
            ),
        ) matches Some(key) && crate::keys::public_key_text(key) == crate::text::trimmed(
            configured.xpub@,
        )),
{
}

/// Each kind of address has the descriptor of its own template: pay to public key hash, the same wrapped in
/// a script, the native witness form, and taproot.
pub proof fn law_each_kind_of_address_has_its_template(key: Seq<u8>, path: Seq<u32>)
    ensures
        descriptor_text(key, AddressType::Legacy, path) == p2pkh_text(key, path),
        descriptor_text(key, AddressType::NestedSegwit, path) == p2wpkh_p2sh_text(key, path),
        descriptor_text(key, AddressType::NativeSegwit, path) == p2wpkh_text(key, path),
        descriptor_text(key, AddressType::Taproot, path) == p2tr_text(key, path),
{
}

/// The descriptor of a keychain is that of its kind of address at the path of the account, with the step of
/// the keychain behind it; the first account keeps to that path too.
pub proof fn law_descriptors_are_at_the_path_of_the_account(
    account: OnchainWalletAccount,
    master: Seq<u8>,
    network: Network,
    keychain: KeychainKind,
)
    requires
        account.account_index <= 0x7fff_ffff,
    ensures
        ({
            let path = crate::keys::account_path(
                account.address_type,
                network,
                account.account_index,
            );
            let step: u32 = if keychain == KeychainKind::External {
                0
            } else {
                1
            };
            &&& account_descriptor(account, master, network, keychain) == descriptor_text(
                master,
                account.address_type,
                path + seq![step],
            )
            &&& account.account_index == 0 ==> standard_path(
                account.address_type,
                network,
                keychain,
            ) == path + seq![step]
        }),
{
    let path = crate::keys::account_path(account.address_type, network, account.account_index);
    assert(path.push(keychain.step()) =~= path + seq![keychain.step()]);
}

/// The first account is planned as the standards have it, every other one at its whole path, with the index
/// of the account in it, so that plans of different accounts differ.
pub proof fn law_plans_tell_accounts_apart(
    plan: DescriptorPlan,
    account: OnchainWalletAccount,
    network: Network,
    keychain: KeychainKind,
)
    requires
        account.account_index <= 0x7fff_ffff,
        is_plan_for(plan, account, network, keychain),
    ensures
        plan is Standard <==> account.account_index == 0,
        plan matches DescriptorPlan::Standard { address_type, keychain: k } ==> address_type
            == account.address_type && k == keychain,
        plan matches DescriptorPlan::AtPath { address_type, path } ==> address_type
            == account.address_type && path@.len() == 4 && path@[0] == 0x8000_0000
            + account.address_type.purpose() && path@[2] == 0x8000_0000 + account.account_index
            && (path@[3] == 0 <==> keychain == KeychainKind::External) && path@[3] <= 1,
{
}

/// The wallets besides the primary one: for each further kind of address, in order, the first account, which
/// the node can do without and which looks as far ahead as any; then each configured account, in order,
/// which the node cannot do without and which looks ahead as far as is asked for.
pub proof fn law_all_wallets_are_planned(
    address_types: Seq<AddressType>,
    configured: Seq<OnchainWalletAccount>,
    lookahead: u32,
    i: int,
)
    ensures
        ({
            let plan = wallets_for(address_types, configured, lookahead);
            let n = address_types.len();
            &&& plan.len() == n + configured.len()
            &&& 0 <= i < n ==> plan[i].account.address_type == address_types[i]
                && plan[i].account.account_index == 0 && plan[i].optional && plan[i].lookahead
                is None
            &&& 0 <= i < configured.len() ==> plan[n + i].account == configured[i] && !plan[n
                + i].optional && plan[n + i].lookahead == Some(lookahead)
        }),
{
}

/// A build of the wallets fails exactly if one fails that the node cannot do without, and with the error of
/// the first such wallet.
pub proof fn law_the_first_needed_wallet_that_fails_decides<W>(
    plan: Seq<AdditionalWallet>,
    built: Seq<Result<W, BuildError>>,
    i: int,
)
    requires
        built.len() <= plan.len(),
    ensures
        first_failure(plan, built) is None ==> (0 <= i < built.len() && built[i] is Err
            ==> plan[i].optional),
        0 <= i < built.len() && built[i] is Err && !plan[i].optional && (forall|j: int|
            0 <= j < i ==> (#[trigger] built[j] is Ok || plan[j].optional)) ==> first_failure(
            plan,
            built,
        ) == Some(built[i]->Err_0),
    decreases built.len(),
{
    if built.len() > 0 {
        let front = built.drop_last();
        law_the_first_needed_wallet_that_fails_decides(plan, front, i);
        if 0 <= i < front.len() {
            assert(front[i] == built[i]);
            if forall|j: int| 0 <= j < i ==> (#[trigger] built[j] is Ok || plan[j].optional) {
                assert forall|j: int| 0 <= j < i implies (#[trigger] front[j] is Ok
                    || plan[j].optional) by {
                    assert(front[j] == built[j]);
                }
            }
        } else if i == front.len() && (forall|j: int|
            0 <= j < i ==> (#[trigger] built[j] is Ok || plan[j].optional)) {
            lemma_no_failure(plan, front, built);
        }
    }
}

proof fn lemma_no_failure<W>(
    plan: Seq<AdditionalWallet>,
    front: Seq<Result<W, BuildError>>,
    built: Seq<Result<W, BuildError>>,
)
    requires
        front.len() <= built.len(),
        forall|j: int| 0 <= j < front.len() ==> #[trigger] front[j] == built[j],
        forall|j: int|
            0 <= j < front.len() ==> (#[trigger] built[j] is Ok || plan[j].optional),
    ensures
        first_failure(plan, front) is None,
    decreases front.len(),
{
    if front.len() > 0 {
        let k = front.len() - 1;
        assert forall|j: int| 0 <= j < front.drop_last().len() implies #[trigger] front.drop_last()[j]
            == built[j] by {
            assert(front.drop_last()[j] == front[j]);
        }
        lemma_no_failure(plan, front.drop_last(), built);
        assert(front[k] == built[k]);
        assert(built[k] is Ok || plan[k].optional);
    }
}

/// Every wallet that was built is there, with the account that it was built for, and nothing else.
pub proof fn law_every_wallet_that_was_built_is_kept<W>(
    plan: Seq<AdditionalWallet>,
    built: Seq<Result<W, BuildError>>,
    i: int,
    k: int,
)
    requires
        built.len() <= plan.len(),
    ensures
        0 <= i < built.len() && built[i] is Ok ==> built_wallets(plan, built).contains(
            (plan[i].account, built[i]->Ok_0),
        ),
        0 <= k < built_wallets(plan, built).len() ==> exists|j: int|
            #![trigger built[j]]
            0 <= j < built.len() && built[j] is Ok && built_wallets(plan, built)[k] == (
                plan[j].account,
                built[j]->Ok_0,
            ),
    decreases built.len(),
{
    let all = built_wallets(plan, built);
    if built.len() > 0 {
        let front = built.drop_last();
        let before = built_wallets(plan, front);
        law_every_wallet_that_was_built_is_kept(plan, front, i, k);
        let last = built.len() - 1;
        if 0 <= i < front.len() && built[i] is Ok {
            assert(front[i] == built[i]);
            let pair = (plan[i].account, built[i]->Ok_0);
            let m = choose|m: int| 0 <= m < before.len() && before[m] == pair;
            assert(all[m] == pair);
        } else if i == last && built[i] is Ok {
            assert(all[before.len() as int] == (plan[i].account, built[i]->Ok_0));
        }
        if 0 <= k < before.len() {
            let j = choose|j: int|
                #![trigger front[j]]
                0 <= j < front.len() && front[j] is Ok && before[k] == (
                    plan[j].account,
                    front[j]->Ok_0,
                );
            assert(built[j] == front[j]);
            assert(all[k] == before[k]);
        } else if k == before.len() && k < all.len() {
            assert(built[last] is Ok);
        }
    }
}

/// Configured accounts are accepted exactly if all of them are valid, and each is then listed.
pub proof fn law_accounts_are_accepted_if_all_are_valid(
    config: Config,
    master: Xpriv,
    accounts: Result<Vec<OnchainWalletAccount>, BuildError>,
    i: int,
)
    requires
        call_ensures(validate_configured_onchain_wallet_accounts, (&config, &master), accounts),
    ensures
        accounts is Ok <==> forall|k: int|
            0 <= k < config.onchain_wallet_accounts@.len() ==> is_valid_account(
                #[trigger] config.onchain_wallet_accounts@[k],
                config.network,
                master.spec_bytes(),
            ),
        accounts matches Ok(a) ==> (0 <= i < config.onchain_wallet_accounts@.len()
            ==> a@.contains(
            OnchainWalletAccount {
                address_type: config.onchain_wallet_accounts@[i].address_type,
                account_index: config.onchain_wallet_accounts@[i].account_index,
            },
        )),
        accounts matches Err(e) ==> e == BuildError::InvalidSeedBytes,
{
    if 0 <= i < config.onchain_wallet_accounts@.len() {
        let configured = config.onchain_wallet_accounts@[i];
        law_every_configured_account_is_listed(
            config.onchain_wallet_accounts@,
            OnchainWalletAccount {
                address_type: configured.address_type,
                account_index: configured.account_index,
            },
        );
    }
}

/// A wallet that was loaded is used, one that is missing is created, and one of another network is refused as
/// such. A new wallet begins at the tip, one that was loaded where it left off.
pub proof fn law_wallets_are_loaded_or_created(
    wallet: u64,
    loaded: AfterLoad<u64>,
    missing: AfterLoad<u64>,
    mismatched: AfterLoad<u64>,
    failed: AfterLoad<u64>,
    created: Result<(u64, bool), BuildError>,
    not_created: Result<(u64, bool), BuildError>,
    from_store: bool,
    tip: Option<BestBlock>,
    checkpoint: Option<BestBlock>,
)
    requires
        call_ensures(after_wallet_load::<u64>, (WalletLoad::Loaded(wallet),), loaded),
        call_ensures(after_wallet_load::<u64>, (WalletLoad::<u64>::Missing,), missing),
        call_ensures(after_wallet_load::<u64>, (WalletLoad::<u64>::NetworkMismatch,), mismatched),
        call_ensures(after_wallet_load::<u64>, (WalletLoad::<u64>::Failed,), failed),
        call_ensures(created_wallet::<u64>, (Some(wallet),), created),
        call_ensures(created_wallet::<u64>, (None,), not_created),
        call_ensures(initial_checkpoint, (from_store, tip), checkpoint),
    ensures
        loaded == AfterLoad::Use(wallet),
        missing is Create,
        mismatched == AfterLoad::<u64>::Fail(BuildError::NetworkMismatch),
        failed == AfterLoad::<u64>::Fail(BuildError::WalletSetupFailed),
        created == Ok::<(u64, bool), BuildError>((wallet, false)),
        not_created == Err::<(u64, bool), BuildError>(BuildError::WalletSetupFailed),
        from_store ==> checkpoint is None,
        !from_store ==> checkpoint == tip,
{
}

/// The further wallets are planned for every kind of address and every account.
pub proof fn law_further_wallets_are_planned(
    address_types: Vec<AddressType>,
    accounts: Vec<OnchainWalletAccount>,
    lookahead: u32,
    wallets: Vec<AdditionalWallet>,
    i: int,
)
    requires
        call_ensures(additional_wallets, (&address_types, &accounts, lookahead), wallets),
    ensures
        wallets@.len() == address_types@.len() + accounts@.len(),
        0 <= i < address_types@.len() ==> wallets@[i].account.address_type == address_types@[i]
            && wallets@[i].account.account_index == 0 && wallets@[i].optional,
        0 <= i < accounts@.len() ==> wallets@[address_types@.len() + i].account == accounts@[i]
            && !wallets@[address_types@.len() + i].optional && wallets@[address_types@.len()
            + i].lookahead == Some(lookahead),
{
    law_all_wallets_are_planned(address_types@, accounts@, lookahead, i);
}

} // verus!
