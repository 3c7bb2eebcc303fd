//! Channels that were closed.
use crate::channel::store::DecodeError;
use crate::data_store::{StorableObject, StorableObjectUpdate, UpdatableObject};
use crate::types::{ChannelId, OutPoint, PublicKey, Txid, UserChannelId};
use lightning::util::ser::Writeable;
use vstd::prelude::*;

verus! {

/// Details of a closed channel.
#[derive(Debug)]
pub struct ClosedChannelDetails {
    /// The channel's ID at the time it was closed.
    pub channel_id: ChannelId,
    /// The local identifier of the channel.
    pub user_channel_id: UserChannelId,
    /// The node ID of the channel's counterparty.
    pub counterparty_node_id: Option<PublicKey>,
    /// The channel's funding transaction outpoint.
    pub funding_txo: Option<OutPoint>,
    /// The channel's capacity in satoshis.
    pub channel_capacity_sats: Option<u64>,
    /// Our local balance in millisatoshis at the time of channel closure.
    pub last_local_balance_msat: Option<u64>,
    /// Indicates whether we initiated the channel opening.
    ///
    /// `true` if the channel was opened by us (outbound), `false` if opened by the counterparty
    /// (inbound). This will be `false` for channels opened prior to this field being tracked.
    pub is_outbound: bool,
    /// The reason for the channel closure, as the hexadecimal text of its encoding.
    pub closure_reason: Option<String>,
    /// The timestamp, in seconds since start of the UNIX epoch, when the channel was closed.
    pub closed_at: u64,
}

/// Names the record that an update is meant for. Closed channels are immutable once written.
#[derive(Clone, Copy, Debug)]
pub struct ClosedChannelDetailsUpdate(pub UserChannelId);

impl StorableObjectUpdate<ClosedChannelDetails> for ClosedChannelDetailsUpdate {
    open spec fn spec_update_id(&self) -> UserChannelId {
        self.0
    }

    fn id(&self) -> (id: UserChannelId) {
        self.0
    }
}

impl StorableObject for ClosedChannelDetails {
    type Id = UserChannelId;

    open spec fn spec_id(&self) -> UserChannelId {
        self.user_channel_id
    }

    fn id(&self) -> (id: UserChannelId) {
        self.user_channel_id
    }

    fn duplicate(&self) -> (copy: Self) {
        let closure_reason = match &self.closure_reason {
            Some(reason) => Some(reason.clone()),
            None => None,
        };
        ClosedChannelDetails {
            channel_id: self.channel_id,
            user_channel_id: self.user_channel_id,
            counterparty_node_id: self.counterparty_node_id,
            funding_txo: self.funding_txo,
            channel_capacity_sats: self.channel_capacity_sats,
            last_local_balance_msat: self.last_local_balance_msat,
            is_outbound: self.is_outbound,
            closure_reason,
            closed_at: self.closed_at,
        }
    }
}

impl UpdatableObject for ClosedChannelDetails {
    type Update = ClosedChannelDetailsUpdate;

    open spec fn spec_update(&self, update: ClosedChannelDetailsUpdate) -> (Self, bool) {
        (*self, false)
    }

    open spec fn spec_to_update(&self) -> ClosedChannelDetailsUpdate {
        ClosedChannelDetailsUpdate(self.user_channel_id)
    }

    fn update(&mut self, _update: ClosedChannelDetailsUpdate) -> (changed: bool) {
        false
    }

    fn to_update(&self) -> (update: ClosedChannelDetailsUpdate) {
        ClosedChannelDetailsUpdate(self.user_channel_id)
    }

    proof fn update_keeps_id(&self, update: ClosedChannelDetailsUpdate) {
    }
}

/// What reading a closure reason from some bytes gives: nothing if they are malformed, otherwise
/// the encoding of the reason, or nothing for a reason of an unknown kind, and the number of bytes
/// that were not read.
pub uninterp spec fn closure_reason_read(bytes: Seq<u8>) -> Option<(Option<Seq<u8>>, nat)>;

/// Reads a closure reason.
///
/// Calls `MaybeReadable::read` for `lightning::events::ClosureReason`, and `Writeable::encode` on
/// the reason it gives. What they give is a function of the bytes alone.
#[verifier::external_body]
pub(crate) fn read_closure_reason(bytes: &[u8]) -> (read: Option<(Option<Vec<u8>>, usize)>)
    ensures
        match closure_reason_read(bytes@) {
            None => read is None,
            Some((reason, left)) => read matches Some((r, l)) && l == left && match reason {
                Some(encoding) => r matches Some(v) && v@ == encoding,
                None => r is None,
            },
        },
{
    let mut rest: &[u8] = bytes;
    match <lightning::events::ClosureReason as lightning::util::ser::MaybeReadable>::read(&mut rest) {
        Ok(reason) => Some((reason.map(|r| r.encode()), rest.len())),
        Err(_) => None,
    }
}

/// The closure reason in the value of a record, as hexadecimal text: nothing if its kind is
/// unknown. A value that goes on after the reason is malformed.
pub open spec fn closure_reason_text(value: Seq<u8>) -> Option<Option<Seq<char>>> {
    match closure_reason_read(value) {
        None => None,
        Some((None, _)) => Some(None),
        Some((Some(encoding), left)) => if left == 0 {
            Some(Some(crate::hex::hex_text(encoding)))
        } else {
            None
        },
    }
}

/// An outpoint as it is written.
pub open spec fn outpoint_bytes(o: OutPoint) -> Seq<u8> {
    o.txid.0@ + crate::tlv::be_bytes(o.vout as nat, 4)
}

/// The outpoint that some bytes stand for.
pub open spec fn read_outpoint(b: Seq<u8>) -> OutPoint {
    OutPoint {
        txid: Txid(crate::channel::store::array_of(b.subrange(0, 32))),
        vout: crate::tlv::be(b.subrange(32, 36)) as u32,
    }
}

/// A record with a type, if there is a value for it.
pub open spec fn optional_field(typ: u64, value: Option<Seq<u8>>) -> Seq<(u64, Seq<u8>)> {
    match value {
        Some(v) => seq![(typ, v)],
        None => Seq::empty(),
    }
}

/// The bytes of an optional amount.
pub open spec fn amount_bytes(amount: Option<u64>) -> Option<Seq<u8>> {
    match amount {
        Some(n) => Some(crate::tlv::be_bytes(n as nat, 8)),
        None => None,
    }
}

impl ClosedChannelDetails {
    /// The encoding of the closure reason.
    pub open spec fn reason_bytes(self) -> Option<Seq<u8>> {
        match self.closure_reason {
            Some(text) => crate::hex::hex_bytes(text@),
            None => None,
        }
    }

    /// The text of the closure reason stands for a reason and is written as such text is, and the
    /// counterparty has a public key.
    pub open spec fn valid(self) -> bool {
        &&& self.closure_reason matches Some(text) ==> {
            &&& crate::hex::hex_bytes(text@) is Some
            &&& text@.len() < 0x8000_0000_0000_0000
            &&& crate::hex::hex_text(crate::hex::hex_bytes(text@)->0) == text@
            &&& closure_reason_read(crate::hex::hex_bytes(text@)->0) == Some(
                (Some(crate::hex::hex_bytes(text@)->0), 0nat),
            )
        }
        &&& self.counterparty_node_id matches Some(key) ==> crate::channel::store::is_curve_point(
            key.0@,
        )
    }

    /// The records that a closed channel is written as, without the time of its closure: those that
    /// earlier releases wrote.
    pub open spec fn undated_fields(self) -> Seq<(u64, Seq<u8>)> {
        seq![
            (0u64, self.channel_id.0@),
            (2u64, crate::channel::store::user_channel_id_bytes(self.user_channel_id)),
        ] + optional_field(
            4,
            match self.counterparty_node_id {
                Some(key) => Some(key.0@),
                None => None,
            },
        ) + optional_field(
            6,
            match self.funding_txo {
                Some(o) => Some(outpoint_bytes(o)),
                None => None,
            },
        ) + optional_field(8, amount_bytes(self.channel_capacity_sats)) + optional_field(
            10,
            amount_bytes(self.last_local_balance_msat),
        ) + seq![(12u64, crate::channel::store::flag_bytes(self.is_outbound))] + optional_field(
            14,
            self.reason_bytes(),
        )
    }

    /// The records that a closed channel is written as.
    pub open spec fn fields(self) -> Seq<(u64, Seq<u8>)> {
        self.undated_fields() + seq![(16u64, crate::tlv::be_bytes(self.closed_at as nat, 8))]
    }

    /// Whether some records hold everything about the channel but the time of its closure.
    pub open spec fn is_held_by(self, records: Seq<(u64, Seq<u8>)>) -> bool {
        &&& crate::tlv::field(records, 0) == Some(self.channel_id.0@)
        &&& crate::tlv::field(records, 2) == Some(
            crate::channel::store::user_channel_id_bytes(self.user_channel_id),
        )
        &&& crate::tlv::field(records, 4) == (match self.counterparty_node_id {
            Some(key) => Some(key.0@),
            None => None,
        })
        &&& crate::tlv::field(records, 6) == (match self.funding_txo {
            Some(o) => Some(outpoint_bytes(o)),
            None => None,
        })
        &&& crate::tlv::field(records, 8) == amount_bytes(self.channel_capacity_sats)
        &&& crate::tlv::field(records, 10) == amount_bytes(self.last_local_balance_msat)
        &&& crate::tlv::field(records, 12) == Some(
            crate::channel::store::flag_bytes(self.is_outbound),
        )
        &&& crate::tlv::field(records, 14) == self.reason_bytes()
    }

    /// Whether the details agree in everything but the time of the closure.
    pub open spec fn same_but_for_time(self, other: ClosedChannelDetails) -> bool {
        &&& self.channel_id == other.channel_id
        &&& self.user_channel_id == other.user_channel_id
        &&& self.counterparty_node_id == other.counterparty_node_id
        &&& self.funding_txo == other.funding_txo
        &&& self.channel_capacity_sats == other.channel_capacity_sats
        &&& self.last_local_balance_msat == other.last_local_balance_msat
        &&& self.is_outbound == other.is_outbound
        &&& match (self.closure_reason, other.closure_reason) {
            (Some(a), Some(b)) => a@ == b@,
            (None, None) => true,
            _ => false,
        }
    }

    /// Whether the fields of some records have the shape that a closed channel needs.
    pub open spec fn well_shaped(records: Seq<(u64, Seq<u8>)>) -> bool {
        &&& crate::tlv::understood(records, known_types())
        &&& crate::tlv::field(records, 0) matches Some(v) && v.len() == 32
        &&& crate::tlv::field(records, 2) matches Some(v) && v.len() == 16
        &&& crate::tlv::field(records, 4) matches Some(v) ==> v.len() == 33
            && crate::channel::store::is_curve_point(v)
        &&& crate::tlv::field(records, 6) matches Some(v) ==> v.len() == 36
        &&& crate::tlv::field(records, 8) matches Some(v) ==> v.len() == 8
        &&& crate::tlv::field(records, 10) matches Some(v) ==> v.len() == 8
        &&& crate::tlv::field(records, 12) matches Some(v)
            && crate::channel::store::read_flag(v) is Some
        &&& crate::tlv::field(records, 14) matches Some(v) ==> closure_reason_text(v) is Some
        &&& crate::tlv::field(records, 16) matches Some(v) ==> v.len() == 8
    }

    /// Whether a closed channel is the one that some records describe. One whose time of closure is
    /// not recorded was closed now.
    pub open spec fn described_by(self, records: Seq<(u64, Seq<u8>)>, now: u64) -> bool {
        &&& crate::tlv::field(records, 0) == Some(self.channel_id.0@)
        &&& crate::tlv::field(records, 2) matches Some(v) && crate::tlv::be(v)
            == self.user_channel_id.0
        &&& match self.counterparty_node_id {
            Some(key) => crate::tlv::field(records, 4) == Some(key.0@),
            None => crate::tlv::field(records, 4) is None,
        }
        &&& self.funding_txo == (match crate::tlv::field(records, 6) {
            Some(v) => Some(read_outpoint(v)),
            None => None,
        })
        &&& match self.channel_capacity_sats {
            Some(n) => crate::tlv::field(records, 8) matches Some(v) && crate::tlv::be(v) == n,
            None => crate::tlv::field(records, 8) is None,
        }
        &&& match self.last_local_balance_msat {
            Some(n) => crate::tlv::field(records, 10) matches Some(v) && crate::tlv::be(v) == n,
            None => crate::tlv::field(records, 10) is None,
        }
        &&& crate::tlv::field(records, 12) matches Some(v) && crate::channel::store::read_flag(v)
            == Some(self.is_outbound)
        &&& match crate::tlv::field(records, 14) {
            Some(v) => closure_reason_text(v) == Some(
                match self.closure_reason {
                    Some(text) => Some(text@),
                    None => None,
                },
            ),
            None => self.closure_reason is None,
        }
        &&& match crate::tlv::field(records, 16) {
            Some(v) => crate::tlv::be(v) == self.closed_at,
            None => self.closed_at == now,
        }
    }

    /// The records that some bytes hold behind their length.
    pub open spec fn records_of(b: Seq<u8>) -> Option<Seq<(u64, Seq<u8>)>> {
        match crate::tlv::read_length_prefixed(b) {
            None => None,
            Some(inner) => crate::tlv::read_stream(inner, None),
        }
    }

    /// Writes the details.
    pub fn write(&self) -> (bytes: Vec<u8>)
        requires
            self.closure_reason matches Some(text) ==> crate::hex::hex_bytes(text@) is Some,
        ensures
            bytes@ == crate::tlv::length_prefixed(crate::tlv::tlv_stream(self.fields())),
    {
        let outbound: [u8; 1] = [if self.is_outbound {
            1
        } else {
            0
        }];
        assert(outbound@ =~= crate::channel::store::flag_bytes(self.is_outbound));
        let mut id: Vec<u8> = Vec::new();
        crate::tlv::push_be(&mut id, self.user_channel_id.0, 16);
        assert(id@ =~= crate::channel::store::user_channel_id_bytes(self.user_channel_id));
        let mut at: Vec<u8> = Vec::new();
        crate::tlv::push_be(&mut at, self.closed_at as u128, 8);
        assert(at@ =~= crate::tlv::be_bytes(self.closed_at as nat, 8));
        let key = key_value(&self.counterparty_node_id);
        let funding = outpoint_value(&self.funding_txo);
        let capacity = amount_value(self.channel_capacity_sats);
        let balance = amount_value(self.last_local_balance_msat);
        let reason = match &self.closure_reason {
            Some(text) => crate::hex::to_vec(text.as_str()),
            None => None,
        };

        let mut inner: Vec<u8> = Vec::new();
        let ghost upto0 = Seq::<(u64, Seq<u8>)>::empty();
        let ghost upto1 = upto0.push((0u64, self.channel_id.0@));
        let ghost upto2 = upto1.push((2u64, id@));
        let ghost upto4 = upto2 + optional_field(4, value_view(key));
        let ghost upto6 = upto4 + optional_field(6, value_view(funding));
        let ghost upto8 = upto6 + optional_field(8, value_view(capacity));
        let ghost upto10 = upto8 + optional_field(10, value_view(balance));
        let ghost upto12 = upto10.push((12u64, outbound@));
        let ghost upto14 = upto12 + optional_field(14, value_view(reason));
        let ghost upto16 = upto14.push((16u64, at@));
        assert(inner@ =~= crate::tlv::tlv_stream(upto0));
        push_field(&mut inner, 0, &self.channel_id.0, Ghost(upto0));
        push_field(&mut inner, 2, id.as_slice(), Ghost(upto1));
        push_optional_field(&mut inner, 4, &key, Ghost(upto2));
        push_optional_field(&mut inner, 6, &funding, Ghost(upto4));
        push_optional_field(&mut inner, 8, &capacity, Ghost(upto6));
        push_optional_field(&mut inner, 10, &balance, Ghost(upto8));
        push_field(&mut inner, 12, &outbound, Ghost(upto10));
        push_optional_field(&mut inner, 14, &reason, Ghost(upto12));
        push_field(&mut inner, 16, at.as_slice(), Ghost(upto14));
        proof {
            let head = seq![
                (0u64, self.channel_id.0@),
                (2u64, crate::channel::store::user_channel_id_bytes(self.user_channel_id)),
            ];
            assert(upto2 =~= head);
            assert(upto12 =~= upto10 + seq![(12u64, outbound@)]);
            assert(upto16 =~= upto14 + seq![(16u64, at@)]);
            assert(upto16 == self.fields());
        }
        let mut bytes: Vec<u8> = Vec::new();
        crate::tlv::push_big_size(&mut bytes, inner.len() as u64);
        crate::tlv::push_bytes(&mut bytes, inner.as_slice());
        assert(bytes@ =~= crate::tlv::length_prefixed(crate::tlv::tlv_stream(self.fields())));
        bytes
    }

    /// Reads the details. A channel whose time of closure was not recorded was closed `now`.
    pub fn read(bytes: &[u8], now: u64) -> (details: Result<ClosedChannelDetails, DecodeError>)
        ensures
            match Self::records_of(bytes@) {
                None => details is Err,
                Some(records) => {
                    &&& details is Ok == Self::well_shaped(records)
                    &&& details matches Ok(d) ==> d.described_by(records, now)
                },
            },
    {
        assert(bytes@.skip(0) =~= bytes@);
        let inner = match crate::tlv::parse_length_prefixed(bytes, 0) {
            Some(inner) => inner,
            None => {
                return Err(DecodeError);
            },
        };
        let records = match crate::tlv::parse_stream(inner.as_slice()) {
            Some(records) => records,
            None => {
                return Err(DecodeError);
            },
        };
        let known: [u64; 9] = [0, 2, 4, 6, 8, 10, 12, 14, 16];
        assert(known@ =~= known_types());
        if !crate::tlv::is_understood(&records, &known) {
            return Err(DecodeError);
        }
        let channel_id = match crate::tlv::find_field(&records, 0) {
            Some(v) => match crate::channel::store::parse_array::<32>(v) {
                Some(a) => ChannelId(a),
                None => {
                    return Err(DecodeError);
                },
            },
            None => {
                return Err(DecodeError);
            },
        };
        let user_channel_id = match crate::tlv::find_field(&records, 2) {
            Some(v) if v.len() == 16 => {
                assert(v@.subrange(0, 16) =~= v@);
                UserChannelId(crate::tlv::read_be(v.as_slice(), 0, 16))
            },
            _ => {
                return Err(DecodeError);
            },
        };
        let counterparty_node_id = match crate::tlv::find_field(&records, 4) {
            Some(v) => match crate::channel::store::parse_array::<33>(v) {
                Some(a) => {
                    if !crate::channel::store::is_public_key(&a) {
                        return Err(DecodeError);
                    }
                    Some(PublicKey(a))
                },
                None => {
                    return Err(DecodeError);
                },
            },
            None => None,
        };
        let funding_txo = match crate::tlv::find_field(&records, 6) {
            Some(v) if v.len() == 36 => {
                let txid_bytes = crate::tlv::copy_range(v.as_slice(), 0, 32);
                let vout: u128 = crate::tlv::read_be(v.as_slice(), 32, 4);
                proof {
                    crate::tlv::lemma_powers();
                }
                match crate::channel::store::parse_array::<32>(&txid_bytes) {
                    Some(a) => {
                        proof {
                            crate::channel::store::lemma_array_of(a);
                        }
                        Some(OutPoint { txid: Txid(a), vout: vout as u32 })
                    },
                    None => {
                        return Err(DecodeError);
                    },
                }
            },
            Some(_) => {
                return Err(DecodeError);
            },
            None => None,
        };
        let channel_capacity_sats = match crate::tlv::find_field(&records, 8) {
            Some(v) => match parse_u64(v) {
                Some(n) => Some(n),
                None => {
                    return Err(DecodeError);
                },
            },
            None => None,
        };
        let last_local_balance_msat = match crate::tlv::find_field(&records, 10) {
            Some(v) => match parse_u64(v) {
                Some(n) => Some(n),
                None => {
                    return Err(DecodeError);
                },
            },
            None => None,
        };
        let is_outbound = match crate::tlv::find_field(&records, 12) {
            Some(v) => match crate::channel::store::parse_flag(v) {
                Some(flag) => flag,
                None => {
                    return Err(DecodeError);
                },
            },
            None => {
                return Err(DecodeError);
            },
        };
        let closure_reason = match crate::tlv::find_field(&records, 14) {
            Some(v) => match read_closure_reason(v.as_slice()) {
                Some((Some(encoding), left)) => {
                    if left != 0 {
                        return Err(DecodeError);
                    }
                    Some(crate::hex::to_string(encoding.as_slice()))
                },
                Some((None, _)) => None,
                None => {
                    return Err(DecodeError);
                },
            },
            None => None,
        };
        let closed_at: u64 = match crate::tlv::find_field(&records, 16) {
            Some(v) => match parse_u64(v) {
                Some(n) => n,
                None => {
                    return Err(DecodeError);
                },
            },
            None => now,
        };
        Ok(
            ClosedChannelDetails {
                channel_id,
                user_channel_id,
                counterparty_node_id,
                funding_txo,
                channel_capacity_sats,
                last_local_balance_msat,
                is_outbound,
                closure_reason,
                closed_at,
            },
        )
    }
}

/// The types of the records that a closed channel is written as.
pub open spec fn known_types() -> Seq<u64> {
    seq![0u64, 2, 4, 6, 8, 10, 12, 14, 16]
}

/// What holds of an optional record.
proof fn lemma_optional(typ: u64, value: Option<Seq<u8>>)
    requires
        known_types().contains(typ),
    ensures
        crate::tlv::within(optional_field(typ, value), typ as int, typ + 1),
        crate::tlv::understood(optional_field(typ, value), known_types()),
        crate::tlv::total_len(optional_field(typ, value)) <= 18 + (match value {
            Some(v) => v.len(),
            None => 0,
        }),
        forall|t: u64| #[trigger]
            crate::tlv::field(optional_field(typ, value), t) == (if t == typ {
                value
            } else {
                None
            }),
{
    match value {
        Some(v) => {
            crate::tlv::lemma_single(typ, v, known_types());
        },
        None => {},
    }
}

/// Appends the record of a type to records of smaller types.
proof fn lemma_append(a: Seq<(u64, Seq<u8>)>, upper: int, typ: u64, b: Seq<(u64, Seq<u8>)>)
    requires
        crate::tlv::within(a, 0, upper),
        crate::tlv::understood(a, known_types()),
        0 <= upper <= typ,
        crate::tlv::within(b, typ as int, typ + 1),
        crate::tlv::understood(b, known_types()),
    ensures
        crate::tlv::within(a + b, 0, typ + 1),
        crate::tlv::understood(a + b, known_types()),
        crate::tlv::total_len(a + b) == crate::tlv::total_len(a) + crate::tlv::total_len(b),
        forall|t: u64| #[trigger]
            crate::tlv::field(a + b, t) == (if crate::tlv::field(a, t) is Some {
                crate::tlv::field(a, t)
            } else {
                crate::tlv::field(b, t)
            }),
{
    crate::tlv::lemma_widen(a, 0, upper, 0, typ as int);
    crate::tlv::lemma_concat(a, b, 0, typ as int, typ + 1, known_types());
}

impl ClosedChannelDetails {
    /// What the records of a closed channel hold, without the time of its closure.
    #[verifier::rlimit(50)]
    proof fn lemma_undated_fields(self)
        requires
            self.valid(),
        ensures
            crate::tlv::within(self.undated_fields(), 0, 15),
            crate::tlv::understood(self.undated_fields(), known_types()),
            crate::tlv::total_len(self.undated_fields()) <= u64::MAX - 26,
            self.is_held_by(self.undated_fields()),
            crate::tlv::field(self.undated_fields(), 16) is None,
    {
        let known = known_types();
        assert(known[0] == 0 && known[1] == 2 && known[2] == 4 && known[3] == 6 && known[4] == 8
            && known[5] == 10 && known[6] == 12 && known[7] == 14 && known[8] == 16);
        let id = crate::channel::store::user_channel_id_bytes(self.user_channel_id);
        let key = match self.counterparty_node_id {
            Some(key) => Some(key.0@),
            None => None,
        };
        let funding = match self.funding_txo {
            Some(o) => Some(outpoint_bytes(o)),
            None => None,
        };
        let capacity = amount_bytes(self.channel_capacity_sats);
        let balance = amount_bytes(self.last_local_balance_msat);
        let flag = crate::channel::store::flag_bytes(self.is_outbound);
        crate::tlv::lemma_be_bytes_len(self.user_channel_id.0 as nat, 16);
        if let Some(o) = self.funding_txo {
            crate::tlv::lemma_be_bytes_len(o.vout as nat, 4);
        }
        if let Some(n) = self.channel_capacity_sats {
            crate::tlv::lemma_be_bytes_len(n as nat, 8);
        }
        if let Some(n) = self.last_local_balance_msat {
            crate::tlv::lemma_be_bytes_len(n as nat, 8);
        }
        crate::tlv::lemma_single(0, self.channel_id.0@, known);
        crate::tlv::lemma_single(2, id, known);
        lemma_optional(4, key);
        lemma_optional(6, funding);
        lemma_optional(8, capacity);
        lemma_optional(10, balance);
        crate::tlv::lemma_single(12, flag, known);
        lemma_optional(14, self.reason_bytes());
        let upto0 = seq![(0u64, self.channel_id.0@)];
        let upto2 = upto0 + seq![(2u64, id)];
        lemma_append(upto0, 1, 2, seq![(2u64, id)]);
        assert(upto2 =~= seq![(0u64, self.channel_id.0@), (2u64, id)]);
        let upto4 = upto2 + optional_field(4, key);
        lemma_append(upto2, 3, 4, optional_field(4, key));
        let upto6 = upto4 + optional_field(6, funding);
        lemma_append(upto4, 5, 6, optional_field(6, funding));
        let upto8 = upto6 + optional_field(8, capacity);
        lemma_append(upto6, 7, 8, optional_field(8, capacity));
        let upto10 = upto8 + optional_field(10, balance);
        lemma_append(upto8, 9, 10, optional_field(10, balance));
        let upto12 = upto10 + seq![(12u64, flag)];
        lemma_append(upto10, 11, 12, seq![(12u64, flag)]);
        let upto14 = upto12 + optional_field(14, self.reason_bytes());
        lemma_append(upto12, 13, 14, optional_field(14, self.reason_bytes()));
        assert(upto14 == self.undated_fields());
    }

    /// What the records of a closed channel hold.
    proof fn lemma_fields(self)
        requires
            self.valid(),
        ensures
            crate::tlv::within(self.fields(), 0, 17),
            crate::tlv::understood(self.fields(), known_types()),
            crate::tlv::total_len(self.fields()) <= u64::MAX,
            self.is_held_by(self.fields()),
            crate::tlv::field(self.fields(), 16) == Some(
                crate::tlv::be_bytes(self.closed_at as nat, 8),
            ),
    {
        self.lemma_undated_fields();
        assert(known_types()[8] == 16);
        let at = crate::tlv::be_bytes(self.closed_at as nat, 8);
        crate::tlv::lemma_be_bytes_len(self.closed_at as nat, 8);
        crate::tlv::lemma_single(16, at, known_types());
        lemma_append(self.undated_fields(), 15, 16, seq![(16u64, at)]);
    }

    /// What records describe that hold everything about a channel but the time of its closure.
    proof fn lemma_described(
        self,
        read: ClosedChannelDetails,
        records: Seq<(u64, Seq<u8>)>,
        now: u64,
    )
        requires
            self.valid(),
            self.is_held_by(records),
            read.described_by(records, now),
        ensures
            read.same_but_for_time(self),
    {
        crate::tlv::lemma_powers();
        crate::tlv::law_be_round_trip(self.user_channel_id.0 as nat, 16);
        if let Some(n) = self.channel_capacity_sats {
            crate::tlv::law_be_round_trip(n as nat, 8);
        }
        if let Some(n) = self.last_local_balance_msat {
            crate::tlv::law_be_round_trip(n as nat, 8);
        }
        if let Some(o) = self.funding_txo {
            crate::tlv::law_be_round_trip(o.vout as nat, 4);
            crate::channel::store::lemma_array_of(o.txid.0);
            assert(outpoint_bytes(o).subrange(0, 32) =~= o.txid.0@);
            assert(outpoint_bytes(o).subrange(32, 36) =~= crate::tlv::be_bytes(o.vout as nat, 4));
        }
        crate::channel::store::lemma_array_of(self.channel_id.0);
        crate::channel::store::lemma_array_of(read.channel_id.0);
        if let Some(key) = self.counterparty_node_id {
            crate::channel::store::lemma_array_of(key.0);
        }
        if let Some(key) = read.counterparty_node_id {
            crate::channel::store::lemma_array_of(key.0);
        }
    }

    /// Records that hold everything about a channel can be read behind their length, whatever follows
    /// them.
    proof fn lemma_readable(self, records: Seq<(u64, Seq<u8>)>, rest: Seq<u8>)
        requires
            self.valid(),
            self.is_held_by(records),
            crate::tlv::within(records, 0, 17),
            crate::tlv::understood(records, known_types()),
            crate::tlv::total_len(records) <= u64::MAX,
            crate::tlv::field(records, 16) matches Some(v) ==> v.len() == 8,
        ensures
            Self::records_of(
                crate::tlv::length_prefixed(crate::tlv::tlv_stream(records)) + rest,
            ) == Some(records),
            Self::well_shaped(records),
    {
        crate::tlv::lemma_value_len(records);
        crate::tlv::law_stream_round_trip(records, None);
        crate::tlv::lemma_stream_len(records);
        crate::tlv::law_length_prefix_round_trip(crate::tlv::tlv_stream(records), rest);
        crate::tlv::lemma_be_bytes_len(self.user_channel_id.0 as nat, 16);
        if let Some(o) = self.funding_txo {
            crate::tlv::lemma_be_bytes_len(o.vout as nat, 4);
        }
        if let Some(n) = self.channel_capacity_sats {
            crate::tlv::lemma_be_bytes_len(n as nat, 8);
        }
        if let Some(n) = self.last_local_balance_msat {
            crate::tlv::lemma_be_bytes_len(n as nat, 8);
        }
    }

    /// The details of a closed channel are read back as they were written, whatever follows them
    /// and whatever the time is by then: the records are those that were written, they can be read,
    /// and what they describe agrees in every field with what was written.
    pub proof fn law_round_trip(self, read: ClosedChannelDetails, rest: Seq<u8>, now: u64)
        requires
            self.valid(),
            read.described_by(self.fields(), now),
        ensures
            Self::records_of(
                crate::tlv::length_prefixed(crate::tlv::tlv_stream(self.fields())) + rest,
            ) == Some(self.fields()),
            Self::well_shaped(self.fields()),
            read.same_but_for_time(self),
            read.closed_at == self.closed_at,
    {
        self.law_written_can_be_read(rest);
        self.lemma_fields();
        self.lemma_described(read, self.fields(), now);
        crate::tlv::lemma_powers();
        crate::tlv::law_be_round_trip(self.closed_at as nat, 8);
    }

    /// What was written can be read, whatever follows it.
    pub proof fn law_written_can_be_read(self, rest: Seq<u8>)
        requires
            self.valid(),
        ensures
            Self::records_of(
                crate::tlv::length_prefixed(crate::tlv::tlv_stream(self.fields())) + rest,
            ) == Some(self.fields()),
            Self::well_shaped(self.fields()),
    {
        self.lemma_fields();
        crate::tlv::lemma_be_bytes_len(self.closed_at as nat, 8);
        self.lemma_readable(self.fields(), rest);
    }

    /// Details that an earlier release wrote, without the time of the closure, can be read, whatever
    /// follows them.
    pub proof fn law_undated_can_be_read(self, rest: Seq<u8>)
        requires
            self.valid(),
        ensures
            Self::records_of(
                crate::tlv::length_prefixed(crate::tlv::tlv_stream(self.undated_fields())) + rest,
            ) == Some(self.undated_fields()),
            Self::well_shaped(self.undated_fields()),
    {
        self.lemma_undated_fields();
        crate::tlv::lemma_widen(self.undated_fields(), 0, 15, 0, 17);
        self.lemma_readable(self.undated_fields(), rest);
    }

    /// Details that an earlier release wrote, without the time of the closure, still load: they can be
    /// read, whatever follows them, and agree with what was written in everything else. The time is
    /// that of the reading.
    pub proof fn law_undated_details_load(self, read: ClosedChannelDetails, rest: Seq<u8>, now: u64)
        requires
            self.valid(),
            read.described_by(self.undated_fields(), now),
        ensures
            Self::records_of(
                crate::tlv::length_prefixed(crate::tlv::tlv_stream(self.undated_fields())) + rest,
            ) == Some(self.undated_fields()),
            Self::well_shaped(self.undated_fields()),
            read.same_but_for_time(self),
            read.closed_at == now,
    {
        self.law_undated_can_be_read(rest);
        self.lemma_undated_fields();
        self.lemma_described(read, self.undated_fields(), now);
    }
}

fn parse_u64(v: &Vec<u8>) -> (n: Option<u64>)
    ensures
        match n {
            Some(n) => v@.len() == 8 && crate::tlv::be(v@) == n,
            None => v@.len() != 8,
        },
{
    if v.len() != 8 {
        return None;
    }
    let n: u128 = crate::tlv::read_be(v.as_slice(), 0, 8);
    proof {
        assert(v@.subrange(0, 8) =~= v@);
        crate::tlv::lemma_powers();
    }
    Some(n as u64)
}

/// The bytes of an optional value.
pub open spec fn value_view(value: Option<Vec<u8>>) -> Option<Seq<u8>> {
    match value {
        Some(v) => Some(v@),
        None => None,
    }
}

fn key_value(key: &Option<PublicKey>) -> (value: Option<Vec<u8>>)
    ensures
        value_view(value) == (match *key {
            Some(k) => Some(k.0@),
            None => None,
        }),
{
    match key {
        Some(k) => {
            let mut v: Vec<u8> = Vec::new();
            crate::tlv::push_bytes(&mut v, &k.0);
            assert(v@ =~= k.0@);
            Some(v)
        },
        None => None,
    }
}

fn outpoint_value(outpoint: &Option<OutPoint>) -> (value: Option<Vec<u8>>)
    ensures
        value_view(value) == (match *outpoint {
            Some(o) => Some(outpoint_bytes(o)),
            None => None,
        }),
{
    match outpoint {
        Some(o) => {
            let mut v: Vec<u8> = Vec::new();
            crate::tlv::push_bytes(&mut v, &o.txid.0);
            crate::tlv::push_be(&mut v, o.vout as u128, 4);
            assert(v@ =~= outpoint_bytes(*o));
            Some(v)
        },
        None => None,
    }
}

fn amount_value(amount: Option<u64>) -> (value: Option<Vec<u8>>)
    ensures
        value_view(value) == amount_bytes(amount),
{
    match amount {
        Some(n) => {
            let mut v: Vec<u8> = Vec::new();
            crate::tlv::push_be(&mut v, n as u128, 8);
            assert(v@ =~= crate::tlv::be_bytes(n as nat, 8));
            Some(v)
        },
        None => None,
    }
}

/// Appends a record to a stream of records, if there is a value for it.
fn push_optional_field(
    out: &mut Vec<u8>,
    typ: u64,
    value: &Option<Vec<u8>>,
    Ghost(done): Ghost<Seq<(u64, Seq<u8>)>>,
)
    requires
        old(out)@ == crate::tlv::tlv_stream(done),
    ensures
        final(out)@ == crate::tlv::tlv_stream(done + optional_field(typ, value_view(*value))),
{
    match value {
        Some(v) => {
            push_field(out, typ, v.as_slice(), Ghost(done));
            assert(done + optional_field(typ, Some(v@)) =~= done.push((typ, v@)));
        },
        None => {
            assert(done + optional_field(typ, None) =~= done);
        },
    }
}

/// Appends a record to a stream of records.
fn push_field(out: &mut Vec<u8>, typ: u64, value: &[u8], Ghost(done): Ghost<Seq<(u64, Seq<u8>)>>)
    requires
        old(out)@ == crate::tlv::tlv_stream(done),
    ensures
        final(out)@ == crate::tlv::tlv_stream(done.push((typ, value@))),
{
    crate::tlv::push_record(out, typ, value);
    proof {
        crate::tlv::lemma_stream_push(done, (typ, value@));
    }
}

/// What the record of a closed channel is made of: the channel under type 0, its id in the wallet under 2,
/// the peer under 4, the funding under 6, the capacity under 8, the last balance under 10, the direction
/// under 12, the reason under 14 and the time under 16. What is not known has no field.
pub proof fn law_details_are_written_by_type(details: ClosedChannelDetails)
    requires
        details.valid(),
    ensures
        ({
            let fields = details.fields();
            let number = |typ: u64, n: nat, len: nat|
                crate::tlv::field(fields, typ) is Some && crate::tlv::field(fields, typ)->0.len()
                    == len && crate::tlv::be(crate::tlv::field(fields, typ)->0) == n;
            &&& crate::tlv::ascending(fields)
            &&& crate::tlv::field(fields, 0) == Some(details.channel_id.0@)
            &&& number(2, details.user_channel_id.0 as nat, 16)
            &&& details.counterparty_node_id matches Some(key) ==> crate::tlv::field(fields, 4)
                == Some(key.0@)
            &&& details.counterparty_node_id is None ==> crate::tlv::field(fields, 4) is None
            &&& details.funding_txo matches Some(o) ==> crate::tlv::field(fields, 6) == Some(
                o.txid.0@ + crate::tlv::be_bytes(o.vout as nat, 4),
            )
            &&& details.funding_txo is None ==> crate::tlv::field(fields, 6) is None
            &&& details.channel_capacity_sats matches Some(n) ==> number(8, n as nat, 8)
            &&& details.channel_capacity_sats is None ==> crate::tlv::field(fields, 8) is None
            &&& details.last_local_balance_msat matches Some(n) ==> number(10, n as nat, 8)
            &&& details.last_local_balance_msat is None ==> crate::tlv::field(fields, 10) is None
            &&& number(
                12,
                if details.is_outbound {
                    1
                } else {
                    0
                },
                1,
            )
            &&& details.closure_reason matches Some(text) ==> crate::tlv::field(fields, 14)
                == crate::hex::hex_bytes(text@)
            &&& details.closure_reason is None ==> crate::tlv::field(fields, 14) is None
            &&& number(16, details.closed_at as nat, 8)
            &&& crate::tlv::field(details.undated_fields(), 16) is None
        }),
{
    details.lemma_fields();
    details.lemma_undated_fields();
    crate::tlv::lemma_powers();
    crate::tlv::law_be_round_trip(details.user_channel_id.0 as nat, 16);
    crate::tlv::law_be_round_trip(details.closed_at as nat, 8);
    if details.channel_capacity_sats is Some {
        crate::tlv::law_be_round_trip(details.channel_capacity_sats->0 as nat, 8);
    }
    if details.last_local_balance_msat is Some {
        crate::tlv::law_be_round_trip(details.last_local_balance_msat->0 as nat, 8);
    }
    let flag: u8 = if details.is_outbound {
        1
    } else {
        0
    };
    assert(crate::channel::store::flag_bytes(details.is_outbound) =~= seq![flag]);
    crate::tlv::law_the_highest_byte_is_first(Seq::empty(), flag);
}

/// A record is refused without a channel, without an id, without a direction, with a value of another length
/// than its type has, with a key that is none, or with an even type that is not known.
pub proof fn law_misshapen_records_are_refused(
    records: Seq<(u64, Seq<u8>)>,
    typ: u64,
    i: int,
)
    ensures
        ({
            let refused = !ClosedChannelDetails::well_shaped(records);
            let value = crate::tlv::field(records, typ);
            let other_length = |typ: u64, len: nat|
                crate::tlv::field(records, typ) is Some && crate::tlv::field(records, typ)->0.len()
                    != len;
            &&& crate::tlv::field(records, 0) is None ==> refused
            &&& crate::tlv::field(records, 2) is None ==> refused
            &&& crate::tlv::field(records, 12) is None ==> refused
            &&& other_length(0, 32) ==> refused
            &&& other_length(2, 16) ==> refused
            &&& other_length(4, 33) ==> refused
            &&& other_length(6, 36) ==> refused
            &&& other_length(8, 8) ==> refused
            &&& other_length(10, 8) ==> refused
            &&& other_length(12, 1) ==> refused
            &&& other_length(16, 8) ==> refused
            &&& typ == 4 && value is Some && !crate::channel::store::is_curve_point(value->0)
                ==> refused
            &&& typ == 14 && value is Some && closure_reason_text(value->0) is None ==> refused
            &&& 0 <= i < records.len() && records[i].0 % 2 == 0 && records[i].0 > 16 ==> refused
        }),
{
    assert(known_types().len() == 9);
}

/// A reason is read from all of its bytes: one that leaves bytes over is refused. One that is no longer in
/// use is passed over.
pub proof fn law_reasons_are_read_as_a_whole(value: Seq<u8>, encoding: Seq<u8>, left: nat)
    ensures
        closure_reason_read(value) == Some((Some(encoding), 0nat)) ==> closure_reason_text(value)
            == Some(Some(crate::hex::hex_text(encoding))),
        closure_reason_read(value) == Some((Some(encoding), left)) && left > 0
            ==> closure_reason_text(value) is None,
        closure_reason_read(value) == Some((None::<Seq<u8>>, left)) ==> closure_reason_text(value)
            == Some(None::<Seq<char>>),
        closure_reason_read(value) is None ==> closure_reason_text(value) is None,
{
}

/// Closed channels do not change: an update leaves them as they are, and is for the channel that it names.
pub proof fn law_closed_channels_do_not_change(
    details: ClosedChannelDetails,
    update: ClosedChannelDetailsUpdate,
)
    ensures
        details.spec_update(update) == (details, false),
        details.spec_id() == details.user_channel_id,
        details.spec_to_update().spec_update_id() == details.user_channel_id,
        update.spec_update_id() == update.0,
{
}

/// Details that were written are read back as they were, whenever that is.
pub proof fn law_written_details_are_read_back(
    details: ClosedChannelDetails,
    written: Vec<u8>,
    bytes: &[u8],
    now: u64,
    read: Result<ClosedChannelDetails, DecodeError>,
)
    requires
        details.valid(),
        call_ensures(ClosedChannelDetails::write, (&details,), written),
        bytes@ == written@,
        call_ensures(ClosedChannelDetails::read, (bytes, now), read),
    ensures
        read is Ok,
        read->Ok_0.channel_id == details.channel_id,
        read->Ok_0.user_channel_id == details.user_channel_id,
        read->Ok_0.counterparty_node_id == details.counterparty_node_id,
        read->Ok_0.funding_txo == details.funding_txo,
        read->Ok_0.channel_capacity_sats == details.channel_capacity_sats,
        read->Ok_0.last_local_balance_msat == details.last_local_balance_msat,
        read->Ok_0.is_outbound == details.is_outbound,
        read->Ok_0.closed_at == details.closed_at,
        details.closure_reason matches Some(text) ==> (read->Ok_0.closure_reason matches Some(back)
            && back@ == text@),
        details.closure_reason is None ==> read->Ok_0.closure_reason is None,
{
    details.law_written_can_be_read(Seq::empty());
    let all = crate::tlv::length_prefixed(crate::tlv::tlv_stream(details.fields()));
    assert(all + Seq::<u8>::empty() =~= all);
    details.law_round_trip(read->Ok_0, Seq::empty(), now);
}

} // verus!
