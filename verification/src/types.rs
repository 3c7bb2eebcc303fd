//! Identifiers and other plain values that the whole library speaks of.
use crate::vec_map::MapKey;
use vstd::prelude::*;

verus! {

/// Whether two arrays of bytes are equal.
pub fn bytes_eq<const N: usize>(a: &[u8; N], b: &[u8; N]) -> (same: bool)
    ensures
        same == (*a == *b),
{
    let mut i: usize = 0;
    while i < N
        invariant
            i <= N,
            forall|j: int| 0 <= j < i ==> a@[j] == b@[j],
        decreases N - i,
    {
        if a[i] != b[i] {
            return false;
        }
        i += 1;
    }
    assert(a@ =~= b@);
    assert(*a =~= *b);
    true
}

/// A transaction id, in internal byte order.
#[derive(Clone, Copy, Debug)]
pub struct Txid(pub [u8; 32]);

/// A block hash, in internal byte order.
#[derive(Clone, Copy, Debug)]
pub struct BlockHash(pub [u8; 32]);

/// The id of a payment.
#[derive(Clone, Copy, Debug)]
pub struct PaymentId(pub [u8; 32]);

/// The id of a channel.
#[derive(Clone, Copy, Debug)]
pub struct ChannelId(pub [u8; 32]);

/// A compressed public key.
#[derive(Clone, Copy, Debug)]
pub struct PublicKey(pub [u8; 33]);

/// The id under which the node's user knows a channel.
#[derive(Clone, Copy, Debug, PartialEq, Eq, Structural)]
pub struct UserChannelId(pub u128);

/// An output of a transaction.
#[derive(Clone, Copy, Debug)]
pub struct OutPoint {
    pub txid: Txid,
    pub vout: u32,
}

impl MapKey for Txid {
    fn key_eq(&self, other: &Self) -> (same: bool) {
        bytes_eq(&self.0, &other.0)
    }

    fn key_copy(&self) -> (copy: Self) {
        *self
    }
}

impl PartialEq for Txid {
    fn eq(&self, other: &Self) -> (same: bool) {
        bytes_eq(&self.0, &other.0)
    }
}

impl vstd::std_specs::cmp::PartialEqSpecImpl for Txid {
    open spec fn obeys_eq_spec() -> bool {
        true
    }

    open spec fn eq_spec(&self, other: &Self) -> bool {
        *self == *other
    }
}

impl Eq for Txid {

}

impl MapKey for BlockHash {
    fn key_eq(&self, other: &Self) -> (same: bool) {
        bytes_eq(&self.0, &other.0)
    }

    fn key_copy(&self) -> (copy: Self) {
        *self
    }
}

impl PartialEq for BlockHash {
    fn eq(&self, other: &Self) -> (same: bool) {
        bytes_eq(&self.0, &other.0)
    }
}

impl vstd::std_specs::cmp::PartialEqSpecImpl for BlockHash {
    open spec fn obeys_eq_spec() -> bool {
        true
    }

    open spec fn eq_spec(&self, other: &Self) -> bool {
        *self == *other
    }
}

impl Eq for BlockHash {

}

impl MapKey for PaymentId {
    fn key_eq(&self, other: &Self) -> (same: bool) {
        bytes_eq(&self.0, &other.0)
    }

    fn key_copy(&self) -> (copy: Self) {
        *self
    }
}

impl PartialEq for PaymentId {
    fn eq(&self, other: &Self) -> (same: bool) {
        bytes_eq(&self.0, &other.0)
    }
}

impl vstd::std_specs::cmp::PartialEqSpecImpl for PaymentId {
    open spec fn obeys_eq_spec() -> bool {
        true
    }

    open spec fn eq_spec(&self, other: &Self) -> bool {
        *self == *other
    }
}

impl Eq for PaymentId {

}

impl MapKey for ChannelId {
    fn key_eq(&self, other: &Self) -> (same: bool) {
        bytes_eq(&self.0, &other.0)
    }

    fn key_copy(&self) -> (copy: Self) {
        *self
    }
}

impl PartialEq for ChannelId {
    fn eq(&self, other: &Self) -> (same: bool) {
        bytes_eq(&self.0, &other.0)
    }
}

impl vstd::std_specs::cmp::PartialEqSpecImpl for ChannelId {
    open spec fn obeys_eq_spec() -> bool {
        true
    }

    open spec fn eq_spec(&self, other: &Self) -> bool {
        *self == *other
    }
}

impl Eq for ChannelId {

}

impl MapKey for PublicKey {
    fn key_eq(&self, other: &Self) -> (same: bool) {
        bytes_eq(&self.0, &other.0)
    }

    fn key_copy(&self) -> (copy: Self) {
        *self
    }
}

impl PartialEq for PublicKey {
    fn eq(&self, other: &Self) -> (same: bool) {
        bytes_eq(&self.0, &other.0)
    }
}

impl vstd::std_specs::cmp::PartialEqSpecImpl for PublicKey {
    open spec fn obeys_eq_spec() -> bool {
        true
    }

    open spec fn eq_spec(&self, other: &Self) -> bool {
        *self == *other
    }
}

impl Eq for PublicKey {

}

impl MapKey for OutPoint {
    fn key_eq(&self, other: &Self) -> (same: bool) {
        bytes_eq(&self.txid.0, &other.txid.0) && self.vout == other.vout
    }

    fn key_copy(&self) -> (copy: Self) {
        *self
    }
}

impl PartialEq for OutPoint {
    fn eq(&self, other: &Self) -> (same: bool) {
        bytes_eq(&self.txid.0, &other.txid.0) && self.vout == other.vout
    }
}

impl vstd::std_specs::cmp::PartialEqSpecImpl for OutPoint {
    open spec fn obeys_eq_spec() -> bool {
        true
    }

    open spec fn eq_spec(&self, other: &Self) -> bool {
        *self == *other
    }
}

impl Eq for OutPoint {

}

impl MapKey for UserChannelId {
    fn key_eq(&self, other: &Self) -> (same: bool) {
        self.0 == other.0
    }

    fn key_copy(&self) -> (copy: Self) {
        *self
    }
}

/// Whether two slices hold the same bytes.
pub fn slices_eq(a: &[u8], b: &[u8]) -> (same: bool)
    ensures
        same == (a@ == b@),
{
    if a.len() != b.len() {
        return false;
    }
    let mut i: usize = 0;
    while i < a.len()
        invariant
            i <= a@.len(),
            a@.len() == b@.len(),
            forall|j: int| 0 <= j < i ==> a@[j] == b@[j],
        decreases a@.len() - i,
    {
        if a[i] != b[i] {
            return false;
        }
        i += 1;
    }
    assert(a@ =~= b@);
    true
}

/// Which chain the node is on.
#[derive(Clone, Copy, Debug, PartialEq, Eq, Structural)]
pub enum Network {
    Bitcoin,
    Testnet,
    Testnet4,
    Signet,
    Regtest,
}

/// A block of the chain.
#[derive(Clone, Copy, Debug)]
pub struct BestBlock {
    pub block_hash: BlockHash,
    pub height: u32,
}

/// Identifiers are the same exactly if all of their bytes are.
pub proof fn law_identifiers_are_told_by_their_bytes(
    a: Txid,
    b: Txid,
    block: BlockHash,
    other_block: BlockHash,
    payment: PaymentId,
    other_payment: PaymentId,
    channel: ChannelId,
    other_channel: ChannelId,
    key: PublicKey,
    other_key: PublicKey,
    output: OutPoint,
    other_output: OutPoint,
)
    ensures
        vstd::std_specs::cmp::PartialEqSpec::eq_spec(&a, &b) <==> a.0@ == b.0@,
        vstd::std_specs::cmp::PartialEqSpec::eq_spec(&block, &other_block) <==> block.0@ == other_block.0@,
        vstd::std_specs::cmp::PartialEqSpec::eq_spec(&payment, &other_payment) <==> payment.0@ == other_payment.0@,
        vstd::std_specs::cmp::PartialEqSpec::eq_spec(&channel, &other_channel) <==> channel.0@ == other_channel.0@,
        vstd::std_specs::cmp::PartialEqSpec::eq_spec(&key, &other_key) <==> key.0@ == other_key.0@,
        vstd::std_specs::cmp::PartialEqSpec::eq_spec(&output, &other_output) <==> output.txid.0@ == other_output.txid.0@ && output.vout
            == other_output.vout,
{
    assert(a.0@ == b.0@ ==> a.0 =~= b.0);
    assert(block.0@ == other_block.0@ ==> block.0 =~= other_block.0);
    assert(payment.0@ == other_payment.0@ ==> payment.0 =~= other_payment.0);
    assert(channel.0@ == other_channel.0@ ==> channel.0 =~= other_channel.0);
    assert(key.0@ == other_key.0@ ==> key.0 =~= other_key.0);
    assert(output.txid.0@ == other_output.txid.0@ ==> output.txid.0 =~= other_output.txid.0);
}

} // verus!
