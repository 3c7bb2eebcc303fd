//! Persistent state of channels.
use crate::data_store::{StorableObject, StorableObjectId, StorableObjectUpdate, UpdatableObject};
use crate::types::{ChannelId, PublicKey, UserChannelId};
use vstd::prelude::*;

verus! {

/// Some bytes are not what they were taken for.
#[derive(Clone, Copy, Debug, PartialEq, Eq, Structural)]
pub struct DecodeError;

/// The bytes of a user channel id.
pub open spec fn user_channel_id_bytes(id: UserChannelId) -> Seq<u8> {
    crate::tlv::be_bytes(id.0 as nat, 16)
}

impl StorableObjectId for UserChannelId {
    open spec fn spec_encode(&self) -> Seq<char> {
        crate::hex::hex_text(user_channel_id_bytes(*self))
    }

    open spec fn spec_decode(s: Seq<char>) -> Option<Self> {
        match crate::hex::hex_bytes(s) {
            Some(b) => if b.len() == 16 {
                Some(UserChannelId(crate::tlv::be(b) as u128))
            } else {
                None
            },
            None => None,
        }
    }

    fn encode_to_hex_str(&self) -> (s: String) {
        let mut bytes: Vec<u8> = Vec::new();
        crate::tlv::push_be(&mut bytes, self.0, 16);
        assert(bytes@ =~= user_channel_id_bytes(*self));
        crate::hex::to_string(bytes.as_slice())
    }

    fn decode_from_hex_str(s: &str) -> (id: Option<Self>) {
        match crate::hex::to_vec(s) {
            Some(bytes) => if bytes.len() == 16 {
                let n: u128 = crate::tlv::read_be(bytes.as_slice(), 0, 16);
                assert(bytes@.subrange(0, 16) =~= bytes@);
                Some(UserChannelId(n))
            } else {
                None
            },
            None => None,
        }
    }

    proof fn decode_undoes_encode(&self) {
        crate::tlv::lemma_powers();
        crate::tlv::law_be_round_trip(self.0 as nat, 16);
        crate::hex::law_hex_round_trip(user_channel_id_bytes(*self));
    }
}

/// Whether some bytes are a point of the curve in compressed form.
pub uninterp spec fn is_curve_point(bytes: Seq<u8>) -> bool;

/// Whether some bytes are a public key.
///
/// Calls `secp256k1::PublicKey::from_slice` and says whether it succeeded. What it takes for a
/// public key is a function of the bytes alone.
#[verifier::external_body]
pub(crate) fn is_public_key(bytes: &[u8; 33]) -> (valid: bool)
    ensures
        valid == is_curve_point(bytes@),
{
    bitcoin::secp256k1::PublicKey::from_slice(bytes).is_ok()
}

/// Persistent per-channel state, keyed by [`UserChannelId`].
///
/// Durably stores channel flags at the time a channel becomes pending so they remain accessible
/// when the channel closes, even after a restart or a replayed event.
#[derive(Clone, Copy, Debug)]
pub enum ChannelRecord {
    /// State for a live channel whose funding transaction exists.
    Funded {
        user_channel_id: UserChannelId,
        /// The node ID of the channel counterparty.
        counterparty_node_id: PublicKey,
        /// The channel's ID at the time the channel became pending.
        channel_id: ChannelId,
        /// Whether we opened the channel (outbound) or the counterparty did (inbound).
        is_outbound: bool,
        /// Whether the channel was publicly announced.
        is_announced: bool,
    },
}

impl PartialEq for ChannelRecord {
    fn eq(&self, other: &Self) -> (same: bool) {
        match (self, other) {
            (
                ChannelRecord::Funded {
                    user_channel_id: a,
                    counterparty_node_id: b,
                    channel_id: c,
                    is_outbound: d,
                    is_announced: e,
                },
                ChannelRecord::Funded {
                    user_channel_id: a2,
                    counterparty_node_id: b2,
                    channel_id: c2,
                    is_outbound: d2,
                    is_announced: e2,
                },
            ) => *a == *a2 && *b == *b2 && *c == *c2 && *d == *d2 && *e == *e2,
        }
    }
}

impl vstd::std_specs::cmp::PartialEqSpecImpl for ChannelRecord {
    open spec fn obeys_eq_spec() -> bool {
        true
    }

    open spec fn eq_spec(&self, other: &Self) -> bool {
        *self == *other
    }
}

/// Names the record that an update is meant for. There is nothing about it that could change.
#[derive(Clone, Copy, Debug)]
pub struct ChannelRecordUpdate {
    pub user_channel_id: UserChannelId,
}

impl StorableObjectUpdate<ChannelRecord> for ChannelRecordUpdate {
    open spec fn spec_update_id(&self) -> UserChannelId {
        self.user_channel_id
    }

    fn id(&self) -> (id: UserChannelId) {
        self.user_channel_id
    }
}

impl StorableObject for ChannelRecord {
    type Id = UserChannelId;

    open spec fn spec_id(&self) -> UserChannelId {
        match self {
            ChannelRecord::Funded { user_channel_id, .. } => *user_channel_id,
        }
    }

    fn id(&self) -> (id: UserChannelId) {
        match self {
            ChannelRecord::Funded { user_channel_id, .. } => *user_channel_id,
        }
    }

    fn duplicate(&self) -> (copy: Self) {
        *self
    }
}

impl UpdatableObject for ChannelRecord {
    type Update = ChannelRecordUpdate;

    /// The fields are immutable once written. Changing nothing makes inserting a record that
    /// already exists a no-op.
    open spec fn spec_update(&self, update: ChannelRecordUpdate) -> (Self, bool) {
        (*self, false)
    }

    open spec fn spec_to_update(&self) -> ChannelRecordUpdate {
        ChannelRecordUpdate { user_channel_id: self.spec_id() }
    }

    fn update(&mut self, _update: ChannelRecordUpdate) -> (changed: bool) {
        false
    }

    fn to_update(&self) -> (update: ChannelRecordUpdate) {
        ChannelRecordUpdate { user_channel_id: self.id() }
    }

    proof fn update_keeps_id(&self, update: ChannelRecordUpdate) {
    }
}

/// A flag as it is written.
pub open spec fn flag_bytes(flag: bool) -> Seq<u8> {
    seq![
        if flag {
            1u8
        } else {
            0u8
        },
    ]
}

/// The flag that some bytes stand for.
pub open spec fn read_flag(b: Seq<u8>) -> Option<bool> {
    if b.len() == 1 && b[0] <= 1 {
        Some(b[0] == 1)
    } else {
        None
    }
}

pub(crate) fn parse_flag(b: &Vec<u8>) -> (flag: Option<bool>)
    ensures
        flag == read_flag(b@),
{
    if b.len() == 1 && b[0] <= 1 {
        Some(b[0] == 1)
    } else {
        None
    }
}

/// An array of as many bytes as were read.
pub(crate) fn parse_array<const N: usize>(b: &Vec<u8>) -> (array: Option<[u8; N]>)
    ensures
        match array {
            Some(a) => a@ == b@,
            None => b@.len() != N,
        },
{
    if b.len() != N {
        return None;
    }
    let mut a: [u8; N] = [0u8; N];
    let mut i: usize = 0;
    while i < N
        invariant
            i <= N,
            b@.len() == N,
            forall|j: int| 0 <= j < i ==> a@[j] == b@[j],
        decreases N - i,
    {
        a[i] = b[i];
        i += 1;
    }
    assert(a@ =~= b@);
    Some(a)
}

impl ChannelRecord {
    /// The records that a channel's state is written as.
    pub open spec fn fields(self) -> Seq<(u64, Seq<u8>)> {
        match self {
            ChannelRecord::Funded {
                user_channel_id,
                counterparty_node_id,
                channel_id,
                is_outbound,
                is_announced,
            } => seq![
                (0u64, user_channel_id_bytes(user_channel_id)),
                (2u64, counterparty_node_id.0@),
                (4u64, channel_id.0@),
                (6u64, flag_bytes(is_outbound)),
                (8u64, flag_bytes(is_announced)),
            ],
        }
    }

    /// A channel's state as it is written: a byte that tells the variant, and its fields behind
    /// their length.
    pub open spec fn spec_bytes(self) -> Seq<u8> {
        seq![0u8] + crate::tlv::length_prefixed(crate::tlv::tlv_stream(self.fields()))
    }

    /// The state that some fields describe.
    pub open spec fn of_fields(records: Seq<(u64, Seq<u8>)>) -> Option<ChannelRecord> {
        let user_channel_id = crate::tlv::field(records, 0);
        let counterparty_node_id = crate::tlv::field(records, 2);
        let channel_id = crate::tlv::field(records, 4);
        let is_outbound = crate::tlv::field(records, 6);
        let is_announced = crate::tlv::field(records, 8);
        if !crate::tlv::understood(records, seq![0u64, 2, 4, 6, 8]) {
            None
        } else if !(user_channel_id is Some && user_channel_id->0.len() == 16) {
            None
        } else if !(counterparty_node_id is Some && counterparty_node_id->0.len() == 33
            && is_curve_point(counterparty_node_id->0)) {
            None
        } else if !(channel_id is Some && channel_id->0.len() == 32) {
            None
        } else if !(is_outbound is Some && read_flag(is_outbound->0) is Some) {
            None
        } else if !(is_announced is Some && read_flag(is_announced->0) is Some) {
            None
        } else {
            Some(
                ChannelRecord::Funded {
                    user_channel_id: UserChannelId(crate::tlv::be(user_channel_id->0) as u128),
                    counterparty_node_id: PublicKey(array_of(counterparty_node_id->0)),
                    channel_id: ChannelId(array_of(channel_id->0)),
                    is_outbound: read_flag(is_outbound->0)->0,
                    is_announced: read_flag(is_announced->0)->0,
                },
            )
        }
    }

    /// The state that some bytes describe.
    pub open spec fn of_bytes(b: Seq<u8>) -> Option<ChannelRecord> {
        if b.len() == 0 || b[0] != 0 {
            None
        } else {
            match crate::tlv::read_length_prefixed(b.skip(1)) {
                None => None,
                Some(inner) => match crate::tlv::read_stream(inner, None) {
                    None => None,
                    Some(records) => ChannelRecord::of_fields(records),
                },
            }
        }
    }

    /// Writes the record.
    pub fn encode(&self) -> (bytes: Vec<u8>)
        ensures
            bytes@ == self.spec_bytes(),
    {
        match self {
            ChannelRecord::Funded {
                user_channel_id,
                counterparty_node_id,
                channel_id,
                is_outbound,
                is_announced,
            } => {
                let mut id: Vec<u8> = Vec::new();
                crate::tlv::push_be(&mut id, user_channel_id.0, 16);
                let outbound: [u8; 1] = [if *is_outbound {
                    1
                } else {
                    0
                }];
                let announced: [u8; 1] = [if *is_announced {
                    1
                } else {
                    0
                }];
                let mut inner: Vec<u8> = Vec::new();
                crate::tlv::push_record(&mut inner, 0, id.as_slice());
                crate::tlv::push_record(&mut inner, 2, &counterparty_node_id.0);
                crate::tlv::push_record(&mut inner, 4, &channel_id.0);
                crate::tlv::push_record(&mut inner, 6, &outbound);
                crate::tlv::push_record(&mut inner, 8, &announced);
                proof {
                    assert(id@ =~= user_channel_id_bytes(*user_channel_id));
                    assert(outbound@ =~= flag_bytes(*is_outbound));
                    assert(announced@ =~= flag_bytes(*is_announced));
                    reveal_with_fuel(crate::tlv::tlv_stream, 6);
                    let f = self.fields();
                    assert(f.skip(1).skip(1) =~= f.skip(2));
                    assert(f.skip(2).skip(1) =~= f.skip(3));
                    assert(f.skip(3).skip(1) =~= f.skip(4));
                    assert(f.skip(4).skip(1) =~= f.skip(5));
                    assert(inner@ =~= crate::tlv::tlv_stream(f));
                }
                let mut bytes: Vec<u8> = Vec::new();
                bytes.push(0);
                crate::tlv::push_big_size(&mut bytes, inner.len() as u64);
                crate::tlv::push_bytes(&mut bytes, inner.as_slice());
                assert(bytes@ =~= self.spec_bytes());
                bytes
            },
        }
    }

    /// Reads a record. Bytes that follow it are not looked at.
    pub fn read(bytes: &[u8]) -> (record: Result<ChannelRecord, DecodeError>)
        ensures
            match ChannelRecord::of_bytes(bytes@) {
                Some(r) => record == Ok::<ChannelRecord, DecodeError>(r),
                None => record is Err,
            },
    {
        if bytes.len() == 0 || bytes[0] != 0 {
            return Err(DecodeError);
        }
        let inner = match crate::tlv::parse_length_prefixed(bytes, 1) {
            Some(inner) => inner,
            None => {
                return Err(DecodeError);
            },
        };
        let records = match crate::tlv::parse_stream(inner.as_slice()) {
            Some(records) => records,
            None => {
                return Err(DecodeError);
            },
        };
        let known: [u64; 5] = [0, 2, 4, 6, 8];
        assert(known@ =~= seq![0u64, 2, 4, 6, 8]);
        if !crate::tlv::is_understood(&records, &known) {
            return Err(DecodeError);
        }
        let user_channel_id = match crate::tlv::find_field(&records, 0) {
            Some(v) if v.len() == 16 => {
                assert(v@.subrange(0, 16) =~= v@);
                UserChannelId(crate::tlv::read_be(v.as_slice(), 0, 16))
            },
            _ => {
                return Err(DecodeError);
            },
        };
        let counterparty_node_id = match crate::tlv::find_field(&records, 2) {
            Some(v) => match parse_array::<33>(v) {
                Some(a) => {
                    proof {
                        lemma_array_of(a);
                    }
                    if !is_public_key(&a) {
                        return Err(DecodeError);
                    }
                    PublicKey(a)
                },
                None => {
                    return Err(DecodeError);
                },
            },
            None => {
                return Err(DecodeError);
            },
        };
        let channel_id = match crate::tlv::find_field(&records, 4) {
            Some(v) => match parse_array::<32>(v) {
                Some(a) => {
                    proof {
                        lemma_array_of(a);
                    }
                    ChannelId(a)
                },
                None => {
                    return Err(DecodeError);
                },
            },
            None => {
                return Err(DecodeError);
            },
        };
        let is_outbound = match crate::tlv::find_field(&records, 6) {
            Some(v) => match parse_flag(v) {
                Some(flag) => flag,
                None => {
                    return Err(DecodeError);
                },
            },
            None => {
                return Err(DecodeError);
            },
        };
        let is_announced = match crate::tlv::find_field(&records, 8) {
            Some(v) => match parse_flag(v) {
                Some(flag) => flag,
                None => {
                    return Err(DecodeError);
                },
            },
            None => {
                return Err(DecodeError);
            },
        };
        Ok(
            ChannelRecord::Funded {
                user_channel_id,
                counterparty_node_id,
                channel_id,
                is_outbound,
                is_announced,
            },
        )
    }

    /// The fields can be told apart, and each is found by its type.
    proof fn lemma_fields(self)
        ensures
            crate::tlv::ascending(self.fields()),
            crate::tlv::understood(self.fields(), seq![0u64, 2, 4, 6, 8]),
            crate::tlv::tlv_stream(self.fields()).len() <= u64::MAX,
            crate::tlv::field(self.fields(), 0) == Some(self.fields()[0].1),
            crate::tlv::field(self.fields(), 2) == Some(self.fields()[1].1),
            crate::tlv::field(self.fields(), 4) == Some(self.fields()[2].1),
            crate::tlv::field(self.fields(), 6) == Some(self.fields()[3].1),
            crate::tlv::field(self.fields(), 8) == Some(self.fields()[4].1),
            forall|i: int|
                0 <= i < self.fields().len() ==> (#[trigger] self.fields()[i]).1.len() <= u64::MAX,
    {
        let f = self.fields();
        assert(f.len() == 5);
        match self {
            ChannelRecord::Funded { user_channel_id, .. } => {
                crate::tlv::lemma_powers();
                crate::tlv::law_be_round_trip(user_channel_id.0 as nat, 16);
            },
        }
        assert(f[0].1.len() == 16 && f[1].1.len() == 33 && f[2].1.len() == 32);
        assert(f[3].1.len() == 1 && f[4].1.len() == 1);
        assert(crate::tlv::ascending(f));
        assert(f.skip(1).skip(1) =~= f.skip(2));
        assert(f.skip(2).skip(1) =~= f.skip(3));
        assert(f.skip(3).skip(1) =~= f.skip(4));
        assert(f.skip(4).skip(1) =~= f.skip(5));
        assert(crate::tlv::tlv_stream(f).len() <= u64::MAX) by {
            crate::tlv::lemma_stream_len(f);
            reveal_with_fuel(crate::tlv::total_len, 6);
        }
        assert(crate::tlv::field(f, 0) == Some(f[0].1)) by {
            reveal_with_fuel(crate::tlv::field, 2);
        }
        assert(crate::tlv::field(f, 2) == Some(f[1].1)) by {
            reveal_with_fuel(crate::tlv::field, 3);
        }
        assert(crate::tlv::field(f, 4) == Some(f[2].1)) by {
            reveal_with_fuel(crate::tlv::field, 4);
        }
        assert(crate::tlv::field(f, 6) == Some(f[3].1)) by {
            reveal_with_fuel(crate::tlv::field, 5);
        }
        assert(crate::tlv::field(f, 8) == Some(f[4].1)) by {
            reveal_with_fuel(crate::tlv::field, 6);
        }
        let known = seq![0u64, 2, 4, 6, 8];
        assert(known[0] == 0 && known[1] == 2 && known[2] == 4 && known[3] == 6 && known[4] == 8);
        assert(crate::tlv::understood(f, known));
    }

    /// The fields of a record describe the record.
    proof fn lemma_of_fields(self)
        requires
            is_curve_point(match self {
                ChannelRecord::Funded { counterparty_node_id, .. } => counterparty_node_id.0@,
            }),
        ensures
            ChannelRecord::of_fields(self.fields()) == Some(self),
    {
        self.lemma_fields();
        match self {
            ChannelRecord::Funded { user_channel_id, counterparty_node_id, channel_id, .. } => {
                crate::tlv::lemma_powers();
                crate::tlv::law_be_round_trip(user_channel_id.0 as nat, 16);
                lemma_array_of(counterparty_node_id.0);
                lemma_array_of(channel_id.0);
            },
        }
    }

    /// The fields are read back from the stream that they are written as.
    proof fn lemma_stream(self)
        ensures
            crate::tlv::tlv_stream(self.fields()).len() <= u64::MAX,
            crate::tlv::read_stream(crate::tlv::tlv_stream(self.fields()), None) == Some(
                self.fields(),
            ),
    {
        self.lemma_fields();
        crate::tlv::law_stream_round_trip(self.fields(), None);
    }

    /// What some bytes describe depends on the fields behind the first byte and the length.
    proof fn lemma_of_bytes(inner: Seq<u8>, records: Seq<(u64, Seq<u8>)>, rest: Seq<u8>)
        requires
            inner.len() <= u64::MAX,
            crate::tlv::read_stream(inner, None) == Some(records),
        ensures
            ChannelRecord::of_bytes(seq![0u8] + crate::tlv::length_prefixed(inner) + rest)
                == ChannelRecord::of_fields(records),
    {
        let b = seq![0u8] + crate::tlv::length_prefixed(inner) + rest;
        crate::tlv::law_length_prefix_round_trip(inner, rest);
        assert(b[0] == 0);
        assert(b.skip(1) =~= crate::tlv::length_prefixed(inner) + rest);
    }

    /// A record is read back as it was written, whatever follows it.
    pub proof fn law_round_trip(self, rest: Seq<u8>)
        requires
            is_curve_point(match self {
                ChannelRecord::Funded { counterparty_node_id, .. } => counterparty_node_id.0@,
            }),
        ensures
            ChannelRecord::of_bytes(self.spec_bytes() + rest) == Some(self),
    {
        self.lemma_stream();
        self.lemma_of_fields();
        ChannelRecord::lemma_of_bytes(crate::tlv::tlv_stream(self.fields()), self.fields(), rest);
    }
}

/// The array that holds some bytes.
pub open spec fn array_of<const N: usize>(b: Seq<u8>) -> [u8; N] {
    choose|a: [u8; N]| a@ == b
}

/// An array is the one that holds its bytes.
pub(crate) proof fn lemma_array_of<const N: usize>(a: [u8; N])
    ensures
        array_of::<N>(a@) == a,
{
    let chosen = array_of::<N>(a@);
    assert(chosen@ =~= a@);
    assert(chosen =~= a);
}

/// What the record of a channel is made of: a zero, the length, and the fields, with the id of the channel in
/// the wallet under type 0, the peer under 2, the channel under 4, the direction under 6 and whether it is
/// announced under 8.
pub proof fn law_records_are_written_by_type(record: ChannelRecord)
    ensures
        ({
            let ChannelRecord::Funded {
                user_channel_id,
                counterparty_node_id,
                channel_id,
                is_outbound,
                is_announced,
            } = record;
            let fields = record.fields();
            &&& fields.len() == 5
            &&& fields[0] == (0u64, crate::tlv::be_bytes(user_channel_id.0 as nat, 16))
            &&& fields[1] == (2u64, counterparty_node_id.0@)
            &&& fields[2] == (4u64, channel_id.0@)
            &&& fields[3].0 == 6 && fields[3].1.len() == 1 && (fields[3].1[0] == 1 <==> is_outbound)
                && fields[3].1[0] <= 1
            &&& fields[4].0 == 8 && fields[4].1.len() == 1 && (fields[4].1[0] == 1
                <==> is_announced) && fields[4].1[0] <= 1
            &&& record.spec_bytes()[0] == 0
            &&& record.spec_bytes().skip(1) == crate::tlv::length_prefixed(
                crate::tlv::tlv_stream(fields),
            )
        }),
{
    assert(record.spec_bytes().skip(1) =~= crate::tlv::length_prefixed(
        crate::tlv::tlv_stream(record.fields()),
    ));
}

/// A record is refused where a field is missing or has another length than its type has, where the key is
/// none, where a flag is neither zero nor one, where an even type is not known, and where the bytes do not
/// begin with a zero.
pub proof fn law_misshapen_channels_are_refused(records: Seq<(u64, Seq<u8>)>, i: int, bytes: Seq<u8>)
    ensures
        ({
            let refused = ChannelRecord::of_fields(records) is None;
            let misses = |typ: u64, len: nat|
                crate::tlv::field(records, typ) is None || crate::tlv::field(records, typ)->0.len()
                    != len;
            let no_flag = |typ: u64|
                misses(typ, 1) || crate::tlv::field(records, typ)->0[0] > 1;
            &&& misses(0, 16) ==> refused
            &&& misses(2, 33) ==> refused
            &&& misses(4, 32) ==> refused
            &&& no_flag(6) ==> refused
            &&& no_flag(8) ==> refused
            &&& crate::tlv::field(records, 2) is Some && !is_curve_point(
                crate::tlv::field(records, 2)->0,
            ) ==> refused
            &&& 0 <= i < records.len() && records[i].0 % 2 == 0 && records[i].0 > 8 ==> refused
            &&& bytes.len() == 0 || bytes[0] != 0 ==> ChannelRecord::of_bytes(bytes) is None
        }),
{
    assert(seq![0u64, 2, 4, 6, 8].len() == 5);
    if 0 <= i < records.len() && records[i].0 % 2 == 0 && records[i].0 > 8 {
        assert(!seq![0u64, 2, 4, 6, 8].contains(records[i].0));
    }
}

/// A flag is written as a one or a zero, and read back as what it was.
pub proof fn law_flags_are_read_back(flag: bool, bytes: Seq<u8>)
    ensures
        read_flag(flag_bytes(flag)) == Some(flag),
        flag_bytes(flag).len() == 1,
        flag_bytes(flag)[0] == 1 <==> flag,
        flag_bytes(flag)[0] <= 1,
        read_flag(bytes) is Some <==> bytes.len() == 1 && bytes[0] <= 1,
{
}

/// The id of a channel is written as the 32 hexadecimal digits of its 16 bytes.
pub proof fn law_ids_are_32_digits(id: UserChannelId, text: Seq<char>)
    ensures
        id.spec_encode().len() == 32,
        id.spec_encode() == crate::hex::hex_text(crate::tlv::be_bytes(id.0 as nat, 16)),
        UserChannelId::spec_decode(text) is Some <==> crate::hex::hex_bytes(text) is Some
            && crate::hex::hex_bytes(text)->0.len() == 16,
{
    crate::tlv::lemma_be_bytes_len(id.0 as nat, 16);
}

/// Channels do not change: an update leaves them as they are, and is for the channel that it names.
pub proof fn law_channels_do_not_change(record: ChannelRecord, update: ChannelRecordUpdate)
    ensures
        record.spec_update(update) == (record, false),
        record matches ChannelRecord::Funded { user_channel_id, .. } ==> record.spec_id()
            == user_channel_id && record.spec_to_update().spec_update_id() == user_channel_id,
        update.spec_update_id() == update.user_channel_id,
{
}

/// A record that was written is read back as it was, and what cannot be read is refused.
pub proof fn law_written_records_are_read_back(
    record: ChannelRecord,
    written: Vec<u8>,
    bytes: &[u8],
    read: Result<ChannelRecord, DecodeError>,
)
    requires
        record matches ChannelRecord::Funded { counterparty_node_id, .. } && is_curve_point(
            counterparty_node_id.0@,
        ),
        call_ensures(ChannelRecord::encode, (&record,), written),
        bytes@ == written@,
        call_ensures(ChannelRecord::read, (bytes,), read),
    ensures
        read == Ok::<ChannelRecord, DecodeError>(record),
{
    record.law_round_trip(Seq::empty());
    assert(record.spec_bytes() + Seq::<u8>::empty() =~= record.spec_bytes());
}

/// Channels are the same exactly if all that is recorded of them is.
pub proof fn law_channels_are_told_by_what_is_recorded(a: ChannelRecord, b: ChannelRecord)
    ensures
        vstd::std_specs::cmp::PartialEqSpec::eq_spec(&a, &b) <==> a == b,
        a matches ChannelRecord::Funded {
            user_channel_id,
            counterparty_node_id,
            channel_id,
            is_outbound,
            is_announced,
        } ==> (b matches ChannelRecord::Funded {
            user_channel_id: i,
            counterparty_node_id: n,
            channel_id: c,
            is_outbound: o,
            is_announced: p,
        } ==> (a == b <==> i == user_channel_id && n == counterparty_node_id && c == channel_id && o
            == is_outbound && p == is_announced)),
{
}

} // verus!
