//! Transactions, held as the bytes they travel in.
use crate::types::Txid;
use vstd::prelude::*;

verus! {

/// The identifier of the transaction that a list of bytes holds, as
/// `bitcoin::Transaction::compute_txid` gives it. `None` where the bytes do not hold exactly one
/// transaction.
pub uninterp spec fn txid_of(bytes: Seq<u8>) -> Option<Seq<u8>>;

/// The identifier of the transaction that a list of bytes holds.
///
/// Calls `bitcoin::consensus::deserialize` and, on the transaction it gives,
/// `bitcoin::Transaction::compute_txid`. Both depend on the bytes alone.
#[verifier::external_body]
fn read_txid(bytes: &[u8]) -> (txid: Option<[u8; 32]>)
    ensures
        match txid {
            Some(txid) => txid_of(bytes@) == Some(txid@),
            None => txid_of(bytes@) is None,
        },
{
    match bitcoin::consensus::deserialize::<bitcoin::Transaction>(bytes) {
        Ok(tx) => Some(bitcoin::hashes::Hash::to_byte_array(tx.compute_txid())),
        Err(_) => None,
    }
}

/// The transaction that hexadecimal text holds.
///
/// Calls `bitcoin::consensus::encode::deserialize_hex` and gives back the bytes of the transaction by
/// `bitcoin::consensus::serialize`. The text has to hold the bytes of exactly one transaction, which
/// may not be longer than the four million bytes that decoding is limited to. There is only one way
/// to write a transaction in bytes, so those that come out are those that the text holds.
#[verifier::external_body]
fn read_hex(text: &str) -> (bytes: Option<Vec<u8>>)
    ensures
        match bytes {
            Some(bytes) => crate::hex::hex_bytes(text@) == Some(bytes@) && bytes@.len() <= 4_000_000
                && txid_of(bytes@) is Some,
            None => crate::hex::hex_bytes(text@) matches Some(bytes) ==> bytes.len() > 4_000_000
                || txid_of(bytes) is None,
        },
{
    match bitcoin::consensus::encode::deserialize_hex::<bitcoin::Transaction>(text) {
        Ok(tx) => Some(bitcoin::consensus::serialize(&tx)),
        Err(_) => None,
    }
}

/// The text that a transaction identifier is shown as.
///
/// Calls `bitcoin::Txid::to_string`, which writes the bytes in hexadecimal digits, the last byte first.
#[verifier::external_body]
fn show_txid(bytes: &[u8; 32]) -> (text: String)
    ensures
        text@ == crate::hex::hex_text(bytes@.reverse()),
{
    let txid: bitcoin::Txid = bitcoin::hashes::Hash::from_byte_array(*bytes);
    txid.to_string()
}

/// The transaction identifier that is shown as a text.
///
/// Calls `bitcoin::Txid::from_str`, which reads 64 hexadecimal digits of either case, the last byte
/// first, and refuses everything else.
#[verifier::external_body]
fn parse_txid(text: &str) -> (bytes: Option<[u8; 32]>)
    ensures
        match bytes {
            Some(bytes) => crate::hex::hex_bytes(text@) == Some(bytes@.reverse()),
            None => crate::hex::hex_bytes(text@) matches Some(bytes) ==> bytes.len() != 32,
        },
{
    match text.parse::<bitcoin::Txid>() {
        Ok(txid) => Some(bitcoin::hashes::Hash::to_byte_array(txid)),
        Err(_) => None,
    }
}

impl Txid {
    /// The text that a transaction identifier is shown as: the last byte first.
    pub open spec fn shown(self) -> Seq<char> {
        crate::hex::hex_text(self.0@.reverse())
    }

    /// The text that a transaction identifier is shown as.
    pub fn to_text(&self) -> (text: String)
        ensures
            text@ == self.shown(),
    {
        show_txid(&self.0)
    }

    /// The transaction identifier that is shown as a text.
    pub fn parse(text: &str) -> (txid: Option<Txid>)
        ensures
            match txid {
                Some(txid) => crate::hex::hex_bytes(text@) == Some(txid.0@.reverse()),
                None => crate::hex::hex_bytes(text@) matches Some(bytes) ==> bytes.len() != 32,
            },
    {
        match parse_txid(text) {
            Some(bytes) => Some(Txid(bytes)),
            None => None,
        }
    }

    /// What a transaction identifier is shown as stands for that identifier and no other.
    pub proof fn law_text_round_trip(self, other: Txid)
        requires
            crate::hex::hex_bytes(self.shown()) == Some(other.0@.reverse()),
        ensures
            self == other,
    {
        crate::hex::law_hex_round_trip(self.0@.reverse());
        assert(self.0@ =~= other.0@) by {
            assert forall|i: int| 0 <= i < 32 implies self.0@[i] == other.0@[i] by {
                assert(self.0@.reverse()[31 - i] == other.0@.reverse()[31 - i]);
            }
        }
        assert(self.0 =~= other.0);
    }
}

/// A transaction.
#[derive(Debug)]
pub struct Transaction {
    bytes: Vec<u8>,
    txid: Txid,
}

impl Clone for Transaction {
    fn clone(&self) -> (copy: Self)
        ensures
            copy.spec_bytes() == self.spec_bytes(),
            copy.spec_txid() == self.spec_txid(),
    {
        proof {
            use_type_invariant(self);
        }
        let bytes = self.bytes.clone();
        assert(bytes@ =~= self.bytes@);
        Transaction { bytes, txid: self.txid }
    }
}

impl Transaction {
    /// The bytes that the transaction travels in.
    pub closed spec fn spec_bytes(self) -> Seq<u8> {
        self.bytes@
    }

    /// The identifier of the transaction.
    pub closed spec fn spec_txid(self) -> Txid {
        self.txid
    }

    /// The bytes hold one transaction, which has the identifier.
    #[verifier::type_invariant]
    pub closed spec fn well_formed(self) -> bool {
        txid_of(self.bytes@) == Some(self.txid.0@)
    }

    /// The transaction that a list of bytes holds.
    pub fn from_bytes(bytes: Vec<u8>) -> (tx: Option<Transaction>)
        ensures
            tx is Some == txid_of(bytes@) is Some,
            tx matches Some(tx) ==> {
                &&& tx.spec_bytes() == bytes@
                &&& txid_of(bytes@) == Some(tx.spec_txid().0@)
            },
    {
        match read_txid(bytes.as_slice()) {
            Some(txid) => Some(Transaction { bytes, txid: Txid(txid) }),
            None => None,
        }
    }

    /// The transaction that hexadecimal text holds.
    pub fn from_hex(text: &str) -> (tx: Option<Transaction>)
        ensures
            match tx {
                Some(tx) => {
                    &&& crate::hex::hex_bytes(text@) == Some(tx.spec_bytes())
                    &&& tx.spec_bytes().len() <= 4_000_000
                    &&& txid_of(tx.spec_bytes()) == Some(tx.spec_txid().0@)
                },
                None => crate::hex::hex_bytes(text@) matches Some(bytes) ==> bytes.len()
                    > 4_000_000 || txid_of(bytes) is None,
            },
    {
        match read_hex(text) {
            Some(bytes) => Transaction::from_bytes(bytes),
            None => None,
        }
    }

    /// The hexadecimal text of the transaction.
    pub fn to_hex(&self) -> (text: String)
        ensures
            text@ == crate::hex::hex_text(self.spec_bytes()),
    {
        crate::hex::to_string(self.bytes.as_slice())
    }

    /// The identifier of the transaction.
    pub fn compute_txid(&self) -> (txid: Txid)
        ensures
            txid == self.spec_txid(),
            txid_of(self.spec_bytes()) == Some(txid.0@),
    {
        proof {
            use_type_invariant(self);
        }
        self.txid
    }

    /// The bytes that the transaction travels in.
    pub fn as_bytes(&self) -> (bytes: &Vec<u8>)
        ensures
            bytes@ == self.spec_bytes(),
    {
        &self.bytes
    }
}

/// An identifier is shown as the 64 hexadecimal digits of its bytes, the last byte first.
pub proof fn law_identifiers_are_shown_last_byte_first(txid: Txid, i: int)
    requires
        0 <= i < 32,
    ensures
        txid.shown().len() == 64,
        16 * crate::hex::digit_value(txid.shown()[2 * i])->0 + crate::hex::digit_value(
            txid.shown()[2 * i + 1],
        )->0 == txid.0@[31 - i],
{
    crate::hex::law_each_byte_has_two_digits(txid.0@.reverse(), i);
}

} // verus!
