//! The keys that everything is derived from.
use crate::config::{AddressType, MAX_ONCHAIN_WALLET_ACCOUNT_INDEX};
use crate::types::Network;
use vstd::prelude::*;

verus! {

/// Whether a list of bytes is an extended private key, going by `bitcoin::bip32::Xpriv::decode`.
pub uninterp spec fn is_private_key(bytes: Seq<u8>) -> bool;

/// The master key of a seed, as `bitcoin::bip32::Xpriv::new_master` gives it, for the main network or
/// for the others.
pub uninterp spec fn master_key(main: bool, seed: Seq<u8>) -> Option<Seq<u8>>;

/// The key at a path below another, as `bitcoin::bip32::Xpriv::derive_priv` gives it.
pub uninterp spec fn derived_key(key: Seq<u8>, path: Seq<u32>) -> Option<Seq<u8>>;

/// The text of the public key that belongs to a private one, as `bitcoin::bip32::Xpub::from_priv`
/// gives it.
pub uninterp spec fn public_key_text(key: Seq<u8>) -> Seq<char>;

/// The fingerprint of a key, as `bitcoin::bip32::Xpriv::fingerprint` gives it.
pub uninterp spec fn fingerprint_of(key: Seq<u8>) -> Seq<u8>;

/// Whether a list of bytes is an extended private key.
///
/// Calls `bitcoin::bip32::Xpriv::decode`, which depends on the bytes alone.
#[verifier::external_body]
fn check_key(bytes: &[u8; 78]) -> (valid: bool)
    ensures
        valid == is_private_key(bytes@),
{
    bitcoin::bip32::Xpriv::decode(bytes).is_ok()
}

/// The master key of a seed.
///
/// Calls `bitcoin::bip32::Xpriv::new_master`, which depends on the seed and on whether the network is
/// the main one. What it gives is an extended private key.
#[verifier::external_body]
fn new_master_key(main: bool, seed: &[u8]) -> (key: Option<[u8; 78]>)
    ensures
        match key {
            Some(key) => master_key(main, seed@) == Some(key@) && is_private_key(key@),
            None => master_key(main, seed@) is None,
        },
{
    let kind = if main { bitcoin::NetworkKind::Main } else { bitcoin::NetworkKind::Test };
    match bitcoin::bip32::Xpriv::new_master(kind, seed) {
        Ok(key) => Some(key.encode()),
        Err(_) => None,
    }
}

/// The key at a path below another. A step of the path is hardened where its highest bit is set.
///
/// Calls `bitcoin::bip32::Xpriv::derive_priv`, which depends on the key and the path. What it gives is
/// an extended private key. It panics where a hash happens to be no key, of which no example is known.
#[verifier::external_body]
fn derive_key(key: &[u8; 78], path: &Vec<u32>) -> (derived: Option<[u8; 78]>)
    requires
        is_private_key(key@),
    ensures
        match derived {
            Some(derived) => derived_key(key@, path@) == Some(derived@) && is_private_key(derived@),
            None => derived_key(key@, path@) is None,
        },
{
    let steps: Vec<bitcoin::bip32::ChildNumber> = path.iter().map(|step| (*step).into()).collect();
    let secp = bitcoin::secp256k1::Secp256k1::new();
    match bitcoin::bip32::Xpriv::decode(key).and_then(|key| key.derive_priv(&secp, &steps)) {
        Ok(derived) => Some(derived.encode()),
        Err(_) => None,
    }
}

/// The text of the public key that belongs to a private one.
///
/// Calls `bitcoin::bip32::Xpub::from_priv` and `to_string` on what it gives. Both depend on the key
/// alone.
#[verifier::external_body]
fn show_public_key(key: &[u8; 78]) -> (text: String)
    requires
        is_private_key(key@),
    ensures
        text@ == public_key_text(key@),
{
    let secp = bitcoin::secp256k1::Secp256k1::new();
    let key = bitcoin::bip32::Xpriv::decode(key).expect("the bytes are a key");
    bitcoin::bip32::Xpub::from_priv(&secp, &key).to_string()
}

/// The fingerprint of a key.
///
/// Calls `bitcoin::bip32::Xpriv::fingerprint`, which depends on the key alone.
#[verifier::external_body]
fn key_fingerprint(key: &[u8; 78]) -> (fingerprint: [u8; 4])
    requires
        is_private_key(key@),
    ensures
        fingerprint@ == fingerprint_of(key@),
{
    let secp = bitcoin::secp256k1::Secp256k1::new();
    let key = bitcoin::bip32::Xpriv::decode(key).expect("the bytes are a key");
    key.fingerprint(&secp).to_bytes()
}

/// The secret of a key.
///
/// Reads `bitcoin::bip32::Xpriv::private_key` and calls `secret_bytes` on it, which gives the last 32
/// bytes of the key.
#[verifier::external_body]
fn key_secret(key: &[u8; 78]) -> (secret: [u8; 32])
    requires
        is_private_key(key@),
    ensures
        secret@ == key@.subrange(46, 78),
{
    let key = bitcoin::bip32::Xpriv::decode(key).expect("the bytes are a key");
    key.private_key.secret_bytes()
}

/// An extended private key.
#[derive(Clone, Copy)]
pub struct Xpriv {
    bytes: [u8; 78],
}

/// Whether a network's keys are those of the main network.
pub open spec fn is_main(network: Network) -> bool {
    network == Network::Bitcoin
}

impl Xpriv {
    pub closed spec fn spec_bytes(self) -> Seq<u8> {
        self.bytes@
    }

    /// The bytes are a key.
    #[verifier::type_invariant]
    pub closed spec fn well_formed(self) -> bool {
        is_private_key(self.bytes@)
    }

    /// The bytes of the key.
    pub fn as_bytes(&self) -> (bytes: &[u8; 78])
        ensures
            bytes@ == self.spec_bytes(),
            is_private_key(bytes@),
    {
        proof {
            use_type_invariant(self);
        }
        &self.bytes
    }

    /// The key that a list of bytes is.
    pub fn decode(bytes: [u8; 78]) -> (key: Option<Xpriv>)
        ensures
            match key {
                Some(key) => is_private_key(bytes@) && key.spec_bytes() == bytes@,
                None => !is_private_key(bytes@),
            },
    {
        if check_key(&bytes) {
            Some(Xpriv { bytes })
        } else {
            None
        }
    }

    /// The master key of a seed.
    pub fn new_master(network: Network, seed: &[u8]) -> (key: Option<Xpriv>)
        ensures
            match key {
                Some(key) => master_key(is_main(network), seed@) == Some(key.spec_bytes()),
                None => master_key(is_main(network), seed@) is None,
            },
    {
        match new_master_key(network == Network::Bitcoin, seed) {
            Some(bytes) => Some(Xpriv { bytes }),
            None => None,
        }
    }

    /// The key at a path below this one.
    pub fn derive_priv(&self, path: &Vec<u32>) -> (key: Option<Xpriv>)
        ensures
            match key {
                Some(key) => derived_key(self.spec_bytes(), path@) == Some(key.spec_bytes()),
                None => derived_key(self.spec_bytes(), path@) is None,
            },
    {
        proof {
            use_type_invariant(self);
        }
        match derive_key(&self.bytes, path) {
            Some(bytes) => Some(Xpriv { bytes }),
            None => None,
        }
    }

    /// The text of the public key that belongs to this one.
    pub fn public_key(&self) -> (text: String)
        ensures
            text@ == public_key_text(self.spec_bytes()),
    {
        proof {
            use_type_invariant(self);
        }
        show_public_key(&self.bytes)
    }

    /// The fingerprint of the key.
    pub fn fingerprint(&self) -> (fingerprint: [u8; 4])
        ensures
            fingerprint@ == fingerprint_of(self.spec_bytes()),
    {
        proof {
            use_type_invariant(self);
        }
        key_fingerprint(&self.bytes)
    }

    /// The secret of the key.
    pub fn secret_bytes(&self) -> (secret: [u8; 32])
        ensures
            secret@ == self.spec_bytes().subrange(46, 78),
    {
        proof {
            use_type_invariant(self);
        }
        key_secret(&self.bytes)
    }
}

/// The step of a path to a hardened child.
pub open spec fn hardened(index: u32) -> u32
    recommends
        index <= 0x7fff_ffff,
{
    (0x8000_0000 + index) as u32
}

/// BIP coin type: `0'` for mainnet, `1'` for test networks.
pub open spec fn coin_type(network: Network) -> u32 {
    if is_main(network) {
        0
    } else {
        1
    }
}

/// BIP coin type: `0'` for mainnet, `1'` for test networks.
pub fn bip_coin_type(network: Network) -> (coin: u32)
    ensures
        coin == coin_type(network),
{
    match network {
        Network::Bitcoin => 0,
        _ => 1,
    }
}

/// The path of an account: `m/purpose'/coin_type'/account_index'`.
pub open spec fn account_path(
    address_type: AddressType,
    network: Network,
    account_index: u32,
) -> Seq<u32> {
    seq![hardened(address_type.purpose()), hardened(coin_type(network)), hardened(account_index)]
}

/// The path of an account, where there is such an account.
pub fn account_derivation_path(
    address_type: AddressType,
    network: Network,
    account_index: u32,
) -> (path: Option<Vec<u32>>)
    ensures
        match path {
            Some(path) => account_index <= MAX_ONCHAIN_WALLET_ACCOUNT_INDEX && path@
                == account_path(address_type, network, account_index),
            None => account_index > MAX_ONCHAIN_WALLET_ACCOUNT_INDEX,
        },
{
    if account_index > MAX_ONCHAIN_WALLET_ACCOUNT_INDEX {
        return None;
    }
    let mut path: Vec<u32> = Vec::new();
    path.push(0x8000_0000 + address_type.bip_purpose());
    path.push(0x8000_0000 + bip_coin_type(network));
    path.push(0x8000_0000 + account_index);
    assert(path@ =~= account_path(address_type, network, account_index));
    Some(path)
}

/// What the keys of a path are for.
#[derive(Clone, Copy, Debug, PartialEq, Eq, Structural)]
pub enum KeychainKind {
    /// Receiving.
    External,
    /// Change.
    Internal,
}

impl KeychainKind {
    pub open spec fn step(self) -> u32 {
        match self {
            KeychainKind::External => 0,
            KeychainKind::Internal => 1,
        }
    }
}

/// The path of a keychain of an account, where there is such an account.
pub fn account_keychain_derivation_path(
    address_type: AddressType,
    network: Network,
    account_index: u32,
    keychain: KeychainKind,
) -> (path: Option<Vec<u32>>)
    ensures
        match path {
            Some(path) => account_index <= MAX_ONCHAIN_WALLET_ACCOUNT_INDEX && path@
                == account_path(address_type, network, account_index).push(keychain.step()),
            None => account_index > MAX_ONCHAIN_WALLET_ACCOUNT_INDEX,
        },
{
    match account_derivation_path(address_type, network, account_index) {
        None => None,
        Some(path) => {
            let mut path = path;
            let step: u32 = match keychain {
                KeychainKind::External => 0,
                KeychainKind::Internal => 1,
            };
            path.push(step);
            Some(path)
        },
    }
}

/// Different accounts have different paths.
pub proof fn law_accounts_have_paths_of_their_own(
    a: (AddressType, u32),
    b: (AddressType, u32),
    network: Network,
)
    requires
        a.1 <= MAX_ONCHAIN_WALLET_ACCOUNT_INDEX,
        b.1 <= MAX_ONCHAIN_WALLET_ACCOUNT_INDEX,
        account_path(a.0, network, a.1) == account_path(b.0, network, b.1),
    ensures
        a == b,
{
    let pa = account_path(a.0, network, a.1);
    let pb = account_path(b.0, network, b.1);
    assert(pa[0] == pb[0] && pa[2] == pb[2]);
}

/// The key of an account below a master key, where there is one.
pub open spec fn account_key(
    master: Seq<u8>,
    network: Network,
    address_type: AddressType,
    account_index: u32,
) -> Option<Seq<u8>> {
    if account_index <= MAX_ONCHAIN_WALLET_ACCOUNT_INDEX {
        derived_key(master, account_path(address_type, network, account_index))
    } else {
        None
    }
}

/// The key of an account and the fingerprint of the master key, where there is such an account.
pub fn derive_account_xprv(
    master_xprv: &Xpriv,
    network: Network,
    address_type: AddressType,
    account_index: u32,
) -> (key: Option<(Xpriv, [u8; 4])>)
    ensures
        match key {
            Some((key, fingerprint)) => {
                &&& account_key(master_xprv.spec_bytes(), network, address_type, account_index)
                    == Some(key.spec_bytes())
                &&& fingerprint@ == fingerprint_of(master_xprv.spec_bytes())
            },
            None => account_key(
                master_xprv.spec_bytes(),
                network,
                address_type,
                account_index,
            ) is None,
        },
{
    let master_fingerprint = master_xprv.fingerprint();
    match account_derivation_path(address_type, network, account_index) {
        None => None,
        Some(path) => match master_xprv.derive_priv(&path) {
            Some(key) => Some((key, master_fingerprint)),
            None => None,
        },
    }
}

/// The text of the public key of an account, where there is such an account.
pub open spec fn account_public_key(
    master: Seq<u8>,
    network: Network,
    address_type: AddressType,
    account_index: u32,
) -> Option<Seq<char>> {
    match account_key(master, network, address_type, account_index) {
        Some(key) => Some(public_key_text(key)),
        None => None,
    }
}

/// The text of the public key of an account, where there is such an account.
pub fn derive_account_xpub_string(
    master_xprv: &Xpriv,
    network: Network,
    address_type: AddressType,
    account_index: u32,
) -> (text: Option<String>)
    ensures
        match text {
            Some(text) => account_public_key(
                master_xprv.spec_bytes(),
                network,
                address_type,
                account_index,
            ) == Some(text@),
            None => account_public_key(
                master_xprv.spec_bytes(),
                network,
                address_type,
                account_index,
            ) is None,
        },
{
    match derive_account_xprv(master_xprv, network, address_type, account_index) {
        Some((key, _)) => Some(key.public_key()),
        None => None,
    }
}

/// The key of a hardened child of the master key of a seed.
pub open spec fn hardened_child_key(network: Network, seed: Seq<u8>, index: u32) -> Option<
    Seq<u8>,
> {
    match master_key(is_main(network), seed) {
        Some(master) => derived_key(master, seq![hardened(index)]),
        None => None,
    }
}

/// The key of a hardened child of the master key of a seed, where there is one.
pub fn derive_xprv(network: Network, seed_bytes: &[u8; 64], hardened_child_index: u32) -> (key:
    Option<Xpriv>)
    requires
        hardened_child_index <= 0x7fff_ffff,
    ensures
        match key {
            Some(key) => hardened_child_key(network, seed_bytes@, hardened_child_index) == Some(
                key.spec_bytes(),
            ),
            None => hardened_child_key(network, seed_bytes@, hardened_child_index) is None,
        },
{
    match Xpriv::new_master(network, seed_bytes.as_slice()) {
        None => None,
        Some(master) => {
            let mut path: Vec<u32> = Vec::new();
            path.push(0x8000_0000 + hardened_child_index);
            assert(path@ =~= seq![hardened(hardened_child_index)]);
            master.derive_priv(&path)
        },
    }
}

/// Whether a text is a mnemonic, going by `bip39::Mnemonic::parse`.
pub uninterp spec fn is_mnemonic(words: Seq<char>) -> bool;

/// The seed that a mnemonic and a passphrase stand for, as `bip39::Mnemonic::to_seed` gives it.
pub uninterp spec fn mnemonic_seed(words: Seq<char>, passphrase: Seq<char>) -> Seq<u8>;

/// Whether a text is a mnemonic.
///
/// Calls `bip39::Mnemonic::parse`, which depends on the text alone.
#[verifier::external_body]
fn check_mnemonic(words: &str) -> (valid: bool)
    ensures
        valid == is_mnemonic(words@),
{
    bip39::Mnemonic::parse(words).is_ok()
}

/// The seed that a mnemonic and a passphrase stand for.
///
/// Calls `bip39::Mnemonic::to_seed`, which depends on the words and the passphrase.
#[verifier::external_body]
fn seed_of_mnemonic(words: &str, passphrase: &str) -> (seed: [u8; 64])
    requires
        is_mnemonic(words@),
    ensures
        seed@ == mnemonic_seed(words@, passphrase@),
{
    bip39::Mnemonic::parse(words).expect("the words are a mnemonic").to_seed(passphrase)
}

/// Words that stand for a seed.
pub struct Mnemonic {
    words: String,
}

impl Mnemonic {
    pub closed spec fn spec_words(self) -> Seq<char> {
        self.words@
    }

    /// The words are a mnemonic.
    #[verifier::type_invariant]
    pub closed spec fn well_formed(self) -> bool {
        is_mnemonic(self.words@)
    }

    /// The mnemonic that a text is.
    pub fn parse(words: String) -> (mnemonic: Option<Mnemonic>)
        ensures
            match mnemonic {
                Some(mnemonic) => is_mnemonic(words@) && mnemonic.spec_words() == words@,
                None => !is_mnemonic(words@),
            },
    {
        if check_mnemonic(words.as_str()) {
            Some(Mnemonic { words })
        } else {
            None
        }
    }

    /// The seed that the words and a passphrase stand for.
    pub fn to_seed(&self, passphrase: &str) -> (seed: [u8; 64])
        ensures
            seed@ == mnemonic_seed(self.spec_words(), passphrase@),
    {
        proof {
            use_type_invariant(self);
        }
        seed_of_mnemonic(self.words.as_str(), passphrase)
    }
}

/// The path of an account begins with the purpose of its kind of addresses, 44, 49, 84 or 86, goes on with
/// 0 on the main network and 1 on all others, and ends with the index of the account, all of them hardened.
pub proof fn law_account_paths_follow_the_standards(network: Network, account_index: u32)
    requires
        account_index <= 0x7fff_ffff,
    ensures
        ({
            let coin: int = if network == Network::Bitcoin {
                0x8000_0000
            } else {
                0x8000_0001
            };
            let is_path = |path: Seq<u32>, purpose: int|
                path.len() == 3 && path[0] == 0x8000_0000 + purpose && path[1] == coin && path[2]
                    == 0x8000_0000 + account_index;
            &&& is_path(account_path(AddressType::Legacy, network, account_index), 44)
            &&& is_path(account_path(AddressType::NestedSegwit, network, account_index), 49)
            &&& is_path(account_path(AddressType::NativeSegwit, network, account_index), 84)
            &&& is_path(account_path(AddressType::Taproot, network, account_index), 86)
        }),
        KeychainKind::External.step() == 0,
        KeychainKind::Internal.step() == 1,
{
}

/// The key of an account is the one at its path below the master key, its public key is shown of just that
/// key, and there is neither above the largest index.
pub proof fn law_account_keys_are_at_their_paths(
    master: Seq<u8>,
    network: Network,
    address_type: AddressType,
    account_index: u32,
)
    ensures
        account_index <= 0x7fff_ffff ==> account_key(master, network, address_type, account_index)
            == derived_key(master, account_path(address_type, network, account_index)),
        account_index > 0x7fff_ffff ==> account_key(master, network, address_type, account_index)
            is None,
        account_public_key(master, network, address_type, account_index) is Some <==> account_key(
            master,
            network,
            address_type,
            account_index,
        ) is Some,
        account_key(master, network, address_type, account_index) matches Some(key)
            ==> account_public_key(master, network, address_type, account_index) == Some(
            public_key_text(key),
        ),
{
}

/// The key of a hardened child is the one at that single step below the master key of the seed, and
/// children of different indices are at different steps.
pub proof fn law_children_are_one_step_below_the_master(
    network: Network,
    seed: Seq<u8>,
    index: u32,
    other: u32,
)
    requires
        index <= 0x7fff_ffff,
        other <= 0x7fff_ffff,
    ensures
        hardened_child_key(network, seed, index) == (match master_key(
            network == Network::Bitcoin,
            seed,
        ) {
            Some(master) => derived_key(master, seq![(0x8000_0000 + index) as u32]),
            None => None,
        }),
        hardened(index) == 0x8000_0000 + index,
        hardened(index) == hardened(other) <==> index == other,
        is_main(network) <==> network == Network::Bitcoin,
{
}

/// The path of an account has three hardened steps, and that of a keychain one more that is not hardened.
pub proof fn law_paths_lead_to_accounts(
    address_type: AddressType,
    network: Network,
    account_index: u32,
    keychain: KeychainKind,
    account: Option<Vec<u32>>,
    scripts: Option<Vec<u32>>,
    coin: u32,
)
    requires
        call_ensures(account_derivation_path, (address_type, network, account_index), account),
        call_ensures(
            account_keychain_derivation_path,
            (address_type, network, account_index, keychain),
            scripts,
        ),
        call_ensures(bip_coin_type, (network,), coin),
    ensures
        account is Some <==> account_index <= 0x7fff_ffff,
        scripts is Some <==> account_index <= 0x7fff_ffff,
        coin == (if network == Network::Bitcoin {
            0u32
        } else {
            1u32
        }),
        account matches Some(path) ==> path@.len() == 3 && path@[0] == 0x8000_0000
            + address_type.purpose() && path@[1] == 0x8000_0000 + coin && path@[2] == 0x8000_0000
            + account_index,
        account matches Some(path) ==> (scripts matches Some(longer) && longer@ == path@.push(
            if keychain == KeychainKind::External {
                0u32
            } else {
                1u32
            },
        )),
{
    if account_index <= 0x7fff_ffff {
        law_account_paths_follow_the_standards(network, account_index);
    }
}

/// The keys of an account are those at its path, and the fingerprint is that of the master key.
pub proof fn law_account_keys_are_derived(
    master: Xpriv,
    network: Network,
    address_type: AddressType,
    account_index: u32,
    key: Option<(Xpriv, [u8; 4])>,
    text: Option<String>,
)
    requires
        account_index <= 0x7fff_ffff,
        call_ensures(
            derive_account_xprv,
            (&master, network, address_type, account_index),
            key,
        ),
        call_ensures(
            derive_account_xpub_string,
            (&master, network, address_type, account_index),
            text,
        ),
    ensures
        ({
            let derived = derived_key(
                master.spec_bytes(),
                account_path(address_type, network, account_index),
            );
            &&& key is Some <==> derived is Some
            &&& text is Some <==> derived is Some
            &&& key matches Some((k, fingerprint)) ==> derived == Some(k.spec_bytes())
                && fingerprint@ == fingerprint_of(master.spec_bytes())
            &&& text matches Some(t) ==> t@ == public_key_text(derived->0)
        }),
{
    law_account_keys_are_at_their_paths(master.spec_bytes(), network, address_type, account_index);
}

} // verus!
