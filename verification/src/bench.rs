//! Data to measure stores with.
use crate::hex;
use crate::payment::{
    FundingTxCandidate, PaymentDetails, PaymentDetailsUpdate, PaymentDirection, PaymentHash,
    PaymentKind, PaymentPreimage, PaymentSecret, PaymentStatus, PendingPaymentDetails,
    PendingPaymentDetailsUpdate,
};
use crate::text::to_decimal;
use crate::tlv::push_be;
use crate::types::{PaymentId, Txid};
use vstd::prelude::*;

verus! {

pub const BATCH_LEN: u64 = 100;

pub const LARGE_PAYMENT_SET_LEN: u64 = 10_000;

pub const PAGINATED_PAGE_LEN: u64 = 50;

/// Changes of payments.
#[derive(Debug)]
pub struct PaymentUpdateBatch(pub Vec<PaymentDetailsUpdate>);

/// Records of pending payments.
#[derive(Debug)]
pub struct PendingPaymentBatch(pub Vec<PendingPaymentDetails>);

/// Changes of records of pending payments.
#[derive(Debug)]
pub struct PendingPaymentUpdateBatch(pub Vec<PendingPaymentDetailsUpdate>);

/// A kind of store.
#[derive(Clone, Copy, Debug, PartialEq, Eq, Structural)]
pub enum Backend {
    Filesystem,
    Sqlite,
    Postgres,
}

impl Backend {
    /// The name of a kind of store.
    pub open spec fn spec_name(self) -> &'static str {
        match self {
            Backend::Filesystem => "filesystem",
            Backend::Sqlite => "sqlite",
            Backend::Postgres => "postgres",
        }
    }

    /// The name of a kind of store.
    pub fn name(self) -> (name: &'static str)
        ensures
            name@ == self.spec_name()@,
    {
        match self {
            Backend::Filesystem => "filesystem",
            Backend::Sqlite => "sqlite",
            Backend::Postgres => "postgres",
        }
    }
}

/// The stores that are measured: a database server only where one is configured.
pub fn configured_backends(has_postgres_url: bool) -> (backends: Vec<Backend>)
    ensures
        backends@ == (if has_postgres_url {
            seq![Backend::Filesystem, Backend::Sqlite, Backend::Postgres]
        } else {
            seq![Backend::Filesystem, Backend::Sqlite]
        }),
{
    let mut backends: Vec<Backend> = Vec::new();
    backends.push(Backend::Filesystem);
    backends.push(Backend::Sqlite);
    if has_postgres_url {
        backends.push(Backend::Postgres);
        assert(backends@ =~= seq![Backend::Filesystem, Backend::Sqlite, Backend::Postgres]);
    } else {
        assert(backends@ =~= seq![Backend::Filesystem, Backend::Sqlite]);
    }
    backends
}

/// The name of a store: that of the process and a number.
pub fn store_id(process: u32, number: u64) -> (id: String)
    ensures
        id@ == crate::text::decimal(process as nat) + "_"@ + crate::text::decimal(number as nat),
{
    let mut id = to_decimal(process as u64);
    id.append("_");
    id.append(to_decimal(number).as_str());
    id
}

/// The name of the table of a store.
pub fn postgres_table_name(store_id: &str) -> (name: String)
    ensures
        name@ == "ldk_node_bench_"@ + store_id@,
{
    let mut name = "ldk_node_bench_".to_owned();
    name.append(store_id);
    name
}

/// A text with each double quote in it doubled.
pub open spec fn quotes_doubled(text: Seq<char>) -> Seq<char>
    decreases text.len(),
{
    if text.len() == 0 {
        Seq::empty()
    } else {
        let front = quotes_doubled(text.drop_last());
        if text.last() == '"' {
            front.push('"').push('"')
        } else {
            front.push(text.last())
        }
    }
}

/// A text as an identifier in a query: between double quotes, with those in it doubled.
pub open spec fn quoted(text: Seq<char>) -> Seq<char> {
    seq!['"'] + quotes_doubled(text) + seq!['"']
}

/// A text as an identifier in a query.
pub fn postgres_identifier(identifier: &str) -> (quoted_identifier: String)
    ensures
        quoted_identifier@ == quoted(identifier@),
{
    let n: usize = identifier.unicode_len();
    let mut chars: Vec<char> = Vec::new();
    chars.push('"');
    let mut i: usize = 0;
    assert(identifier@.subrange(0, 0) =~= Seq::empty());
    assert(chars@ =~= seq!['"'] + quotes_doubled(identifier@.subrange(0, 0)));
    while i < n
        invariant
            i <= n,
            n == identifier@.len(),
            chars@ == seq!['"'] + quotes_doubled(identifier@.subrange(0, i as int)),
        decreases n - i,
    {
        let c = identifier.get_char(i);
        let ghost now = identifier@.subrange(0, i + 1);
        assert(now.drop_last() =~= identifier@.subrange(0, i as int));
        assert(now.last() == c);
        if c == '"' {
            chars.push('"');
        }
        chars.push(c);
        assert(chars@ =~= seq!['"'] + quotes_doubled(now));
        i += 1;
    }
    assert(identifier@.subrange(0, n as int) =~= identifier@);
    chars.push('"');
    hex::string_of(chars)
}

/// What stands between the quotes of an identifier, with doubled quotes read as one.
pub open spec fn quotes_halved(text: Seq<char>) -> Seq<char>
    decreases text.len(),
{
    if text.len() == 0 {
        Seq::empty()
    } else if text.last() == '"' && text.len() >= 2 {
        quotes_halved(text.drop_last().drop_last()).push('"')
    } else {
        quotes_halved(text.drop_last()).push(text.last())
    }
}

/// An identifier stands for the text that it was made from.
pub proof fn law_identifiers_are_read_back(text: Seq<char>)
    ensures
        quotes_halved(quotes_doubled(text)) == text,
    decreases text.len(),
{
    if text.len() > 0 {
        law_identifiers_are_read_back(text.drop_last());
        let front = quotes_doubled(text.drop_last());
        if text.last() == '"' {
            assert(front.push('"').push('"').drop_last().drop_last() =~= front);
        } else {
            assert(front.push(text.last()).drop_last() =~= front);
        }
        assert(text.drop_last().push(text.last()) =~= text);
    } else {
        assert(quotes_halved(quotes_doubled(text)) =~= text);
    }
}

/// The bytes that stand for a number: the number, a multiple of it that looks like chance, and zeros.
pub open spec fn filled(idx: u64) -> Seq<u8> {
    crate::tlv::be_bytes(idx as nat, 8) + crate::tlv::be_bytes(
        idx.wrapping_mul(0x9e37_79b9) as nat,
        8,
    ) + Seq::new(16, |i: int| 0u8)
}

fn filled_bytes(idx: u64) -> (bytes: [u8; 32])
    ensures
        bytes@ == filled(idx),
{
    let mut list: Vec<u8> = Vec::new();
    push_be(&mut list, idx as u128, 8);
    push_be(&mut list, idx.wrapping_mul(0x9e37_79b9) as u128, 8);
    proof {
        crate::tlv::lemma_be_bytes_len(idx as nat, 8);
        crate::tlv::lemma_be_bytes_len(idx.wrapping_mul(0x9e37_79b9) as nat, 8);
    }
    let mut bytes: [u8; 32] = [0u8; 32];
    let mut i: usize = 0;
    while i < 16
        invariant
            i <= 16,
            list@.len() == 16,
            bytes@.len() == 32,
            forall|j: int| 0 <= j < i ==> bytes@[j] == #[trigger] list@[j],
            forall|j: int| i <= j < 32 ==> #[trigger] bytes@[j] == 0,
        decreases 16 - i,
    {
        bytes[i] = list[i];
        i += 1;
    }
    assert(bytes@ =~= filled(idx));
    bytes
}

/// Different numbers have different bytes.
pub proof fn law_filled_bytes_differ(a: u64, b: u64)
    requires
        a != b,
    ensures
        filled(a) != filled(b),
{
    crate::tlv::lemma_powers();
    crate::tlv::law_be_round_trip(a as nat, 8);
    crate::tlv::law_be_round_trip(b as nat, 8);
    if filled(a) == filled(b) {
        assert(filled(a).subrange(0, 8) =~= crate::tlv::be_bytes(a as nat, 8));
        assert(filled(b).subrange(0, 8) =~= crate::tlv::be_bytes(b as nat, 8));
    }
}

fn payment_id(idx: u64) -> (id: PaymentId)
    ensures
        id.0@ == filled(idx),
{
    PaymentId(filled_bytes(idx))
}

/// The key that a payment is stored under.
pub fn payment_key(idx: u64) -> (key: String)
    ensures
        key@ == crate::hex::hex_text(filled(idx)),
{
    let id = payment_id(idx);
    hex::to_string(id.0.as_slice())
}

/// Different payments are stored under different keys.
pub proof fn law_payment_keys_differ(a: u64, b: u64)
    requires
        a != b,
    ensures
        crate::hex::hex_text(filled(a)) != crate::hex::hex_text(filled(b)),
{
    law_filled_bytes_differ(a, b);
    if crate::hex::hex_text(filled(a)) == crate::hex::hex_text(filled(b)) {
        crate::hex::law_hex_injective(filled(a), filled(b));
    }
}

/// Whether bytes come before others in their order: they are less where they first differ.
pub open spec fn bytes_precede(a: Seq<u8>, b: Seq<u8>) -> bool {
    exists|k: int| #[trigger] bytes_first_differ(a, b, k) && a[k] < b[k]
}

/// Whether lists of bytes first differ at a position.
pub open spec fn bytes_first_differ(a: Seq<u8>, b: Seq<u8>, k: int) -> bool {
    &&& 0 <= k < a.len() && k < b.len()
    &&& forall|i: int| 0 <= i < k ==> #[trigger] a[i] == b[i]
    &&& a[k] != b[k]
}

/// Whether texts first differ at a position.
pub open spec fn texts_first_differ(a: Seq<char>, b: Seq<char>, k: int) -> bool {
    &&& 0 <= k < a.len() && k < b.len()
    &&& forall|i: int| 0 <= i < k ==> #[trigger] a[i] == b[i]
    &&& a[k] != b[k]
}

/// Whether a text comes before another in the order of their characters: it is less where they first
/// differ.
pub open spec fn text_precedes(a: Seq<char>, b: Seq<char>) -> bool {
    exists|k: int| #[trigger] texts_first_differ(a, b, k) && a[k] < b[k]
}

/// The bytes of a lesser number come first.
proof fn lemma_be_order(a: nat, b: nat, len: nat)
    requires
        a < b,
        b < crate::tlv::pow256(len),
    ensures
        bytes_precede(crate::tlv::be_bytes(a, len), crate::tlv::be_bytes(b, len)),
    decreases len,
{
    if len > 0 {
        let (x, y) = (crate::tlv::be_bytes(a, len), crate::tlv::be_bytes(b, len));
        let less = (len - 1) as nat;
        let (front, other) = (crate::tlv::be_bytes(a / 256, less), crate::tlv::be_bytes(b / 256, less));
        crate::tlv::lemma_be_bytes_len(a / 256, less);
        crate::tlv::lemma_be_bytes_len(b / 256, less);
        if a / 256 < b / 256 {
            assert(crate::tlv::pow256(len) == 256 * crate::tlv::pow256(less));
            lemma_be_order(a / 256, b / 256, less);
            let k = choose|k: int| #[trigger]
                bytes_first_differ(front, other, k) && front[k] < other[k];
            assert forall|i: int| 0 <= i < k implies #[trigger] x[i] == y[i] by {
                assert(front[i] == other[i]);
            }
            assert(bytes_first_differ(x, y, k) && x[k] < y[k]);
        } else {
            assert(a / 256 == b / 256);
            assert(a % 256 < b % 256);
            assert(bytes_first_differ(x, y, less as int) && x[less as int] < y[less as int]);
        }
    }
}

/// The text of bytes that come first comes first.
proof fn lemma_hex_order(a: Seq<u8>, b: Seq<u8>)
    requires
        bytes_precede(a, b),
    ensures
        text_precedes(crate::hex::hex_text(a), crate::hex::hex_text(b)),
{
    let k = choose|k: int| #[trigger] bytes_first_differ(a, b, k) && a[k] < b[k];
    let (x, y) = (crate::hex::hex_text(a), crate::hex::hex_text(b));
    assert forall|i: int| 0 <= i < 2 * k implies #[trigger] x[i] == y[i] by {
        assert(a[i / 2] == b[i / 2]);
    }
    if a[k] as int / 16 == b[k] as int / 16 {
        assert(x[2 * k] == y[2 * k]);
        assert(a[k] as int % 16 < b[k] as int % 16);
        assert(texts_first_differ(x, y, 2 * k + 1) && x[2 * k + 1] < y[2 * k + 1]);
    } else {
        assert(texts_first_differ(x, y, 2 * k) && x[2 * k] < y[2 * k]);
    }
}

/// Whether a key is that of an index in its shape: 64 digits, of which the first 16 are the index and the
/// last 32 are zeros.
pub open spec fn shows_index(key: Seq<char>, idx: u64) -> bool {
    &&& key.len() == 64
    &&& key.subrange(0, 16) == crate::hex::hex_text(crate::tlv::be_bytes(idx as nat, 8))
    &&& forall|i: int| 32 <= i < 64 ==> #[trigger] key[i] == '0'
}

/// The key of every payment is 64 digits long, begins with the index, and ends in 32 zeros.
pub proof fn law_payment_keys_show_the_index(idx: u64)
    ensures
        shows_index(crate::hex::hex_text(filled(idx)), idx),
{
    crate::tlv::lemma_be_bytes_len(idx as nat, 8);
    crate::tlv::lemma_be_bytes_len(idx.wrapping_mul(0x9e37_79b9) as nat, 8);
    let x = crate::tlv::be_bytes(idx as nat, 8);
    let text = crate::hex::hex_text(filled(idx));
    assert(text.subrange(0, 16) =~= crate::hex::hex_text(x)) by {
        assert forall|i: int| 0 <= i < 16 implies #[trigger] text[i] == crate::hex::hex_text(
            x,
        )[i] by {
            assert(filled(idx)[i / 2] == x[i / 2]);
        }
    }
    assert forall|i: int| 32 <= i < 64 implies #[trigger] text[i] == '0' by {
        assert(filled(idx)[i / 2] == 0);
    }
}

/// The keys of payments are ordered as the payments are: of two indices, the lesser one has the key that
/// comes first. Both keys are 64 digits long, begin with their index, and end in 32 zeros.
pub proof fn law_payment_keys_are_ordered(a: u64, b: u64)
    requires
        a < b,
    ensures
        text_precedes(crate::hex::hex_text(filled(a)), crate::hex::hex_text(filled(b))),
        shows_index(crate::hex::hex_text(filled(a)), a),
        shows_index(crate::hex::hex_text(filled(b)), b),
{
    law_payment_keys_show_the_index(a);
    law_payment_keys_show_the_index(b);
    crate::tlv::lemma_powers();
    crate::tlv::lemma_be_bytes_len(a as nat, 8);
    crate::tlv::lemma_be_bytes_len(b as nat, 8);
    crate::tlv::lemma_be_bytes_len(a.wrapping_mul(0x9e37_79b9) as nat, 8);
    crate::tlv::lemma_be_bytes_len(b.wrapping_mul(0x9e37_79b9) as nat, 8);
    lemma_be_order(a as nat, b as nat, 8);
    let (x, y) = (crate::tlv::be_bytes(a as nat, 8), crate::tlv::be_bytes(b as nat, 8));
    let k = choose|k: int| #[trigger] bytes_first_differ(x, y, k) && x[k] < y[k];
    assert forall|i: int| 0 <= i < k implies #[trigger] filled(a)[i] == filled(b)[i] by {
        assert(x[i] == y[i]);
    }
    assert(bytes_first_differ(filled(a), filled(b), k) && filled(a)[k] < filled(b)[k]);
    lemma_hex_order(filled(a), filled(b));
}

/// The key that one of many payments which are written at once goes to.
pub fn concurrent_write_key(idx: u64, same_key: bool) -> (key: String)
    ensures
        key@ == (if same_key {
            "shared_payment_key"@
        } else {
            crate::hex::hex_text(filled(idx))
        }),
{
    if same_key {
        "shared_payment_key".to_owned()
    } else {
        payment_key(idx)
    }
}

/// Whether a payment is one over a Lightning invoice that goes out, with these parts.
pub open spec fn has_parts(
    details: PaymentDetails,
    id: PaymentId,
    hash: PaymentHash,
    preimage: Option<PaymentPreimage>,
    secret: Option<PaymentSecret>,
    amount_msat: Option<u64>,
    fee_paid_msat: Option<u64>,
    status: PaymentStatus,
) -> bool {
    details == (PaymentDetails {
        id,
        kind: PaymentKind::Bolt11 { hash, preimage, secret, counterparty_skimmed_fee_msat: None },
        amount_msat,
        fee_paid_msat,
        direction: PaymentDirection::Outbound,
        status,
    })
}

fn payment_details_with_parts(
    id: PaymentId,
    hash: PaymentHash,
    preimage: Option<PaymentPreimage>,
    secret: Option<PaymentSecret>,
    amount_msat: Option<u64>,
    fee_paid_msat: Option<u64>,
    status: PaymentStatus,
) -> (details: PaymentDetails)
    ensures
        has_parts(details, id, hash, preimage, secret, amount_msat, fee_paid_msat, status),
{
    PaymentDetails::new(
        id,
        PaymentKind::Bolt11 { hash, preimage, secret, counterparty_skimmed_fee_msat: None },
        amount_msat,
        fee_paid_msat,
        PaymentDirection::Outbound,
        status,
    )
}

/// Whether a payment is the pending one of a number.
pub open spec fn is_payment(details: PaymentDetails, idx: int) -> bool {
    &&& details.id.0@ == filled(idx as u64)
    &&& details.kind matches PaymentKind::Bolt11 {
        hash,
        preimage: Some(preimage),
        secret: Some(secret),
        counterparty_skimmed_fee_msat: None,
    } && {
        &&& preimage.0@ == filled((idx + 1) as u64)
        &&& hash.0@ == filled((idx + 2) as u64)
        &&& secret.0@ == filled((idx + 3) as u64)
    }
    &&& details.amount_msat == Some((10_000 + idx) as u64)
    &&& details.fee_paid_msat is None
    &&& details.direction == PaymentDirection::Outbound
    &&& details.status == PaymentStatus::Pending
}

/// The pending payment of a number.
pub fn payment_details(idx: u64) -> (details: PaymentDetails)
    requires
        idx + 10_000 <= u64::MAX,
    ensures
        is_payment(details, idx as int),
{
    let preimage = PaymentPreimage(filled_bytes(idx + 1));
    let hash = PaymentHash(filled_bytes(idx + 2));
    let secret = PaymentSecret(filled_bytes(idx + 3));
    payment_details_with_parts(
        payment_id(idx),
        hash,
        Some(preimage),
        Some(secret),
        Some(10_000 + idx),
        None,
        PaymentStatus::Pending,
    )
}

/// The pending payments of consecutive numbers.
pub fn payment_details_batch(offset: u64) -> (batch: Vec<PaymentDetails>)
    requires
        offset + BATCH_LEN + 9_999 <= u64::MAX,
    ensures
        batch@.len() == BATCH_LEN,
        forall|i: int| 0 <= i < BATCH_LEN ==> is_payment(#[trigger] batch@[i], offset + i),
{
    let mut batch: Vec<PaymentDetails> = Vec::new();
    let mut i: u64 = 0;
    while i < BATCH_LEN
        invariant
            i <= BATCH_LEN,
            batch@.len() == i,
            offset + BATCH_LEN + 9_999 <= u64::MAX,
            forall|j: int| 0 <= j < i ==> is_payment(#[trigger] batch@[j], offset + j),
        decreases BATCH_LEN - i,
    {
        batch.push(payment_details(offset + i));
        i += 1;
    }
    batch
}

/// Whether a change is that of the payment of a number: it succeeded, for a fee.
pub open spec fn is_payment_update(update: PaymentDetailsUpdate, idx: int) -> bool {
    &&& update.id.0@ == filled(idx as u64)
    &&& update.preimage matches Some(Some(preimage)) && preimage.0@ == filled((idx + 2) as u64)
    &&& update == (PaymentDetailsUpdate {
        id: update.id,
        hash: None,
        preimage: update.preimage,
        secret: None,
        amount_msat: None,
        fee_paid_msat: Some(Some(42)),
        status: Some(PaymentStatus::Succeeded),
    })
}

/// The change of the payment of a number.
pub fn payment_update(idx: u64) -> (update: PaymentDetailsUpdate)
    requires
        idx + 2 <= u64::MAX,
    ensures
        is_payment_update(update, idx as int),
{
    let mut update = PaymentDetailsUpdate::new(payment_id(idx));
    update.status = Some(PaymentStatus::Succeeded);
    update.fee_paid_msat = Some(Some(42));
    update.preimage = Some(Some(PaymentPreimage(filled_bytes(idx + 2))));
    update
}

fn payment_update_batch(offset: u64) -> (batch: Vec<PaymentDetailsUpdate>)
    requires
        offset + BATCH_LEN + 1 <= u64::MAX,
    ensures
        batch@.len() == BATCH_LEN,
        forall|i: int| 0 <= i < BATCH_LEN ==> is_payment_update(#[trigger] batch@[i], offset + i),
{
    let mut batch: Vec<PaymentDetailsUpdate> = Vec::new();
    let mut i: u64 = 0;
    while i < BATCH_LEN
        invariant
            i <= BATCH_LEN,
            batch@.len() == i,
            offset + BATCH_LEN + 1 <= u64::MAX,
            forall|j: int| 0 <= j < i ==> is_payment_update(#[trigger] batch@[j], offset + j),
        decreases BATCH_LEN - i,
    {
        batch.push(payment_update(offset + i));
        i += 1;
    }
    batch
}

/// The changes of the payments of consecutive numbers.
pub fn payment_update_batch_from_offset(offset: u64) -> (batch: PaymentUpdateBatch)
    requires
        offset + BATCH_LEN + 1 <= u64::MAX,
    ensures
        batch.0@.len() == BATCH_LEN,
        forall|i: int| 0 <= i < BATCH_LEN ==> is_payment_update(#[trigger] batch.0@[i], offset + i),
{
    PaymentUpdateBatch(payment_update_batch(offset))
}

/// Whether a record follows the payment of a number, with a transaction that conflicts with it.
pub open spec fn is_pending_payment(record: PendingPaymentDetails, idx: int, position: int) -> bool {
    record matches PendingPaymentDetails::Followed {
        details,
        conflicting_txids,
        candidates,
        splice_intent,
    } && {
        &&& is_payment(details, idx)
        &&& conflicting_txids@.len() == 1
        &&& conflicting_txids@[0].0@ == filled((position + 1) as u64)
        &&& candidates@.len() == 0
        &&& splice_intent is None
    }
}

/// The records of the pending payments of consecutive numbers.
pub fn pending_payment_details_batch_from_offset(offset: u64) -> (batch: PendingPaymentBatch)
    requires
        offset + BATCH_LEN + 9_999 <= u64::MAX,
    ensures
        batch.0@.len() == BATCH_LEN,
        forall|i: int|
            0 <= i < BATCH_LEN ==> is_pending_payment(#[trigger] batch.0@[i], offset + i, i),
{
    let mut batch: Vec<PendingPaymentDetails> = Vec::new();
    let mut i: u64 = 0;
    while i < BATCH_LEN
        invariant
            i <= BATCH_LEN,
            batch@.len() == i,
            offset + BATCH_LEN + 9_999 <= u64::MAX,
            forall|j: int| 0 <= j < i ==> is_pending_payment(#[trigger] batch@[j], offset + j, j),
        decreases BATCH_LEN - i,
    {
        let mut conflicting_txids: Vec<Txid> = Vec::new();
        conflicting_txids.push(Txid(filled_bytes(i + 1)));
        let candidates: Vec<FundingTxCandidate> = Vec::new();
        batch.push(
            PendingPaymentDetails::new(payment_details(offset + i), conflicting_txids, candidates),
        );
        i += 1;
    }
    PendingPaymentBatch(batch)
}

/// Whether a change is that of the record of the payment of a number.
pub open spec fn is_pending_payment_update(
    update: PendingPaymentDetailsUpdate,
    idx: int,
    position: int,
) -> bool {
    &&& update.id.0@ == filled(idx as u64)
    &&& update.payment_update matches Some(u) && is_payment_update(u, idx) && u.id == update.id
    &&& update.conflicting_txids matches Some(txids) && txids@.len() == 1 && txids@[0].0@
        == filled((position + 3) as u64)
}

/// The changes of the records of the pending payments of consecutive numbers.
pub fn pending_payment_update_batch_from_offset(offset: u64) -> (batch: PendingPaymentUpdateBatch)
    requires
        offset + BATCH_LEN + 1 <= u64::MAX,
    ensures
        batch.0@.len() == BATCH_LEN,
        forall|i: int|
            0 <= i < BATCH_LEN ==> is_pending_payment_update(#[trigger] batch.0@[i], offset + i, i),
{
    let mut batch: Vec<PendingPaymentDetailsUpdate> = Vec::new();
    let mut i: u64 = 0;
    while i < BATCH_LEN
        invariant
            i <= BATCH_LEN,
            batch@.len() == i,
            offset + BATCH_LEN + 1 <= u64::MAX,
            forall|j: int|
                0 <= j < i ==> is_pending_payment_update(#[trigger] batch@[j], offset + j, j),
        decreases BATCH_LEN - i,
    {
        let payment_update = payment_update(offset + i);
        let mut conflicting_txids: Vec<Txid> = Vec::new();
        conflicting_txids.push(Txid(filled_bytes(i + 3)));
        batch.push(
            PendingPaymentDetailsUpdate {
                id: payment_update.id,
                payment_update: Some(payment_update),
                conflicting_txids: Some(conflicting_txids),
            },
        );
        i += 1;
    }
    PendingPaymentUpdateBatch(batch)
}

/// A value that a change sets, or else a default.
pub open spec fn set_or<T>(value: Option<T>, default: T) -> T {
    match value {
        Some(value) => value,
        None => default,
    }
}

/// The payment that a change makes of nothing. What the change does not set is made up from the id.
pub open spec fn is_payment_from_update(
    details: PaymentDetails,
    update: PaymentDetailsUpdate,
) -> bool {
    let id = update.id;
    has_parts(
        details,
        id,
        match update.hash {
            Some(Some(hash)) => hash,
            _ => PaymentHash(id.0),
        },
        set_or(update.preimage, Some(PaymentPreimage(id.0))),
        set_or(update.secret, Some(PaymentSecret(id.0))),
        set_or(update.amount_msat, Some(10_000u64)),
        set_or(update.fee_paid_msat, None::<u64>),
        set_or(update.status, PaymentStatus::Pending),
    )
}

/// The payment that a change makes of nothing.
pub fn payment_details_from_update(update: PaymentDetailsUpdate) -> (details: PaymentDetails)
    ensures
        is_payment_from_update(details, update),
{
    let id = update.id;
    let hash = match update.hash {
        Some(Some(hash)) => hash,
        _ => PaymentHash(id.0),
    };
    let preimage = match update.preimage {
        Some(preimage) => preimage,
        None => Some(PaymentPreimage(id.0)),
    };
    let secret = match update.secret {
        Some(secret) => secret,
        None => Some(PaymentSecret(id.0)),
    };
    let amount_msat = match update.amount_msat {
        Some(amount_msat) => amount_msat,
        None => Some(10_000u64),
    };
    let fee_paid_msat = match update.fee_paid_msat {
        Some(fee_paid_msat) => fee_paid_msat,
        None => None,
    };
    let status = match update.status {
        Some(status) => status,
        None => PaymentStatus::Pending,
    };
    payment_details_with_parts(id, hash, preimage, secret, amount_msat, fee_paid_msat, status)
}

/// A change of a payment that sets nothing.
pub open spec fn empty_update(id: PaymentId) -> PaymentDetailsUpdate {
    PaymentDetailsUpdate {
        id,
        hash: None,
        preimage: None,
        secret: None,
        amount_msat: None,
        fee_paid_msat: None,
        status: None,
    }
}

/// The record that a change makes of nothing.
pub fn pending_payment_details_from_update(update: PendingPaymentDetailsUpdate) -> (record:
    PendingPaymentDetails)
    ensures
        record matches PendingPaymentDetails::Followed {
            details,
            conflicting_txids,
            candidates,
            splice_intent,
        } && {
            &&& is_payment_from_update(
                details,
                set_or(update.payment_update, empty_update(update.id)),
            )
            &&& match update.conflicting_txids {
                Some(txids) => conflicting_txids == txids,
                None => conflicting_txids@.len() == 0,
            }
            &&& candidates@.len() == 0
            &&& splice_intent is None
        },
{
    let id = update.id;
    let details = match update.payment_update {
        Some(payment_update) => payment_details_from_update(payment_update),
        None => payment_details_from_update(PaymentDetailsUpdate::new(id)),
    };
    let conflicting_txids: Vec<Txid> = match update.conflicting_txids {
        Some(txids) => txids,
        None => Vec::new(),
    };
    let candidates: Vec<FundingTxCandidate> = Vec::new();
    PendingPaymentDetails::new(details, conflicting_txids, candidates)
}

/// Backends go by the names of what they are.
pub proof fn law_backends_go_by_their_names()
    ensures
        Backend::Filesystem.spec_name()@ == "filesystem"@,
        Backend::Sqlite.spec_name()@ == "sqlite"@,
        Backend::Postgres.spec_name()@ == "postgres"@,
{
}

/// An identifier is put between quotes. The quotes within it are doubled, and nothing else is changed.
pub proof fn law_quotes_within_are_doubled(text: Seq<char>, c: char)
    ensures
        quotes_doubled(text.push('"')) == quotes_doubled(text) + seq!['"', '"'],
        c != '"' ==> quotes_doubled(text.push(c)) == quotes_doubled(text) + seq![c],
        quotes_doubled(Seq::empty()).len() == 0,
        quoted(text).len() == quotes_doubled(text).len() + 2,
        quoted(text)[0] == '"',
        quoted(text).last() == '"',
        quoted(text).subrange(1, quoted(text).len() - 1) == quotes_doubled(text),
{
    assert(text.push('"').drop_last() =~= text);
    assert(text.push(c).drop_last() =~= text);
    assert(quoted(text).subrange(1, quoted(text).len() - 1) =~= quotes_doubled(text));
}

/// What the bytes of a number are: its eight bytes, the highest first, eight more, and zeros.
pub proof fn law_filled_bytes_begin_with_the_number(idx: u64, i: int)
    ensures
        filled(idx).len() == 32,
        crate::tlv::be(filled(idx).subrange(0, 8)) == idx,
        crate::tlv::be(filled(idx).subrange(8, 16)) == idx.wrapping_mul(0x9e37_79b9),
        16 <= i < 32 ==> filled(idx)[i] == 0,
{
    crate::tlv::lemma_powers();
    let scrambled = idx.wrapping_mul(0x9e37_79b9);
    crate::tlv::law_be_round_trip(idx as nat, 8);
    crate::tlv::law_be_round_trip(scrambled as nat, 8);
    assert(filled(idx).subrange(0, 8) =~= crate::tlv::be_bytes(idx as nat, 8));
    assert(filled(idx).subrange(8, 16) =~= crate::tlv::be_bytes(scrambled as nat, 8));
}

/// Two texts, and two lists of bytes, are ordered by the first position at which they differ.
pub proof fn law_the_first_difference_decides(
    a: Seq<char>,
    b: Seq<char>,
    x: Seq<u8>,
    y: Seq<u8>,
    k: int,
)
    ensures
        0 <= k < a.len() && k < b.len() && (forall|i: int|
            0 <= i < k ==> #[trigger] a[i] == b[i]) && a[k] < b[k] ==> text_precedes(a, b)
            && !text_precedes(b, a),
        0 <= k < x.len() && k < y.len() && (forall|i: int|
            0 <= i < k ==> #[trigger] x[i] == y[i]) && x[k] < y[k] ==> bytes_precede(x, y)
            && !bytes_precede(y, x),
        !text_precedes(a, a),
        !bytes_precede(x, x),
{
    if 0 <= k < a.len() && k < b.len() && (forall|i: int| 0 <= i < k ==> #[trigger] a[i] == b[i])
        && a[k] < b[k] {
        assert(texts_first_differ(a, b, k));
        if text_precedes(b, a) {
            let m = choose|m: int| #[trigger] texts_first_differ(b, a, m) && b[m] < a[m];
            if m < k {
                assert(a[m] == b[m]);
            } else if k < m {
                assert(b[k] == a[k]);
            }
        }
    }
    if 0 <= k < x.len() && k < y.len() && (forall|i: int| 0 <= i < k ==> #[trigger] x[i] == y[i])
        && x[k] < y[k] {
        assert(bytes_first_differ(x, y, k));
        if bytes_precede(y, x) {
            let m = choose|m: int| #[trigger] bytes_first_differ(y, x, m) && y[m] < x[m];
            if m < k {
                assert(x[m] == y[m]);
            } else if k < m {
                assert(y[k] == x[k]);
            }
        }
    }
}

/// What a payment is made of: its own number for the id, the next ones for the preimage, the hash and the
/// secret, and an amount of its own. It is outbound and pending, without a fee.
pub proof fn law_payments_are_made_of_their_number(details: PaymentDetails, idx: int)
    requires
        0 <= idx,
        idx + 10_000 <= u64::MAX,
        is_payment(details, idx),
    ensures
        details.id.0@ == filled(idx as u64),
        details.kind matches PaymentKind::Bolt11 { hash, preimage, secret, .. }
            && preimage is Some && secret is Some && hash.0@ == filled((idx + 2) as u64),
        details.kind matches PaymentKind::Bolt11 { preimage: Some(preimage), .. } ==> preimage.0@
            == filled((idx + 1) as u64),
        details.kind matches PaymentKind::Bolt11 { secret: Some(secret), .. } ==> secret.0@
            == filled((idx + 3) as u64),
        details.amount_msat is Some,
        details.amount_msat->0 == 10_000 + idx,
        details.fee_paid_msat is None,
        details.direction == PaymentDirection::Outbound,
        details.status == PaymentStatus::Pending,
{
}

/// What an update is made of: it says that the payment of its number succeeded, with a preimage and a fee of
/// 42, and leaves everything else.
pub proof fn law_updates_tell_of_success(update: PaymentDetailsUpdate, idx: int)
    requires
        is_payment_update(update, idx),
    ensures
        update.id.0@ == filled(idx as u64),
        update.status == Some(PaymentStatus::Succeeded),
        update.fee_paid_msat == Some(Some(42u64)),
        update.preimage matches Some(Some(preimage)) && preimage.0@ == filled((idx + 2) as u64),
        update.hash is None,
        update.secret is None,
        update.amount_msat is None,
{
}

/// A pending payment is a payment with one transaction that it is in conflict with, and its update names
/// another one.
pub proof fn law_pending_payments_have_a_conflict(
    record: PendingPaymentDetails,
    update: PendingPaymentDetailsUpdate,
    idx: int,
    position: int,
)
    ensures
        is_pending_payment(record, idx, position) ==> (record
            matches PendingPaymentDetails::Followed {
            details,
            conflicting_txids,
            candidates,
            splice_intent,
        } && is_payment(details, idx) && conflicting_txids@.len() == 1 && conflicting_txids@[0].0@
            == filled((position + 1) as u64) && candidates@.len() == 0 && splice_intent is None),
        is_pending_payment_update(update, idx, position) ==> update.id.0@ == filled(idx as u64)
            && update.payment_update is Some && is_payment_update(update.payment_update->0, idx)
            && update.payment_update->0.id == update.id && update.conflicting_txids is Some
            && update.conflicting_txids->0@.len() == 1 && update.conflicting_txids->0@[0].0@
            == filled((position + 3) as u64),
{
}

/// What an update leaves open is filled from the id of the payment, and what it says is taken from it.
pub proof fn law_updates_fill_payments(details: PaymentDetails, update: PaymentDetailsUpdate)
    requires
        is_payment_from_update(details, update),
    ensures
        details.id == update.id,
        details.direction == PaymentDirection::Outbound,
        update.status matches Some(status) ==> details.status == status,
        update.status is None ==> details.status == PaymentStatus::Pending,
        update.amount_msat matches Some(amount) ==> details.amount_msat == amount,
        update.amount_msat is None ==> details.amount_msat == Some(10_000u64),
        update.fee_paid_msat matches Some(fee) ==> details.fee_paid_msat == fee,
        update.fee_paid_msat is None ==> details.fee_paid_msat is None,
        details.kind is Bolt11,
        details.kind->counterparty_skimmed_fee_msat is None,
        update.preimage matches Some(preimage) ==> details.kind->Bolt11_preimage == preimage,
        update.preimage is None ==> details.kind->Bolt11_preimage == Some(
            PaymentPreimage(update.id.0),
        ),
        update.secret matches Some(secret) ==> details.kind->Bolt11_secret == secret,
        update.secret is None ==> details.kind->Bolt11_secret == Some(PaymentSecret(update.id.0)),
        update.hash matches Some(Some(hash)) ==> details.kind->Bolt11_hash == hash,
        update.hash is None || update.hash == Some(None::<PaymentHash>)
            ==> details.kind->Bolt11_hash == PaymentHash(update.id.0),
{
}

/// An empty update names a payment and says nothing of it.
pub proof fn law_empty_updates_say_nothing(id: PaymentId)
    ensures
        empty_update(id).id == id,
        empty_update(id).hash is None,
        empty_update(id).preimage is None,
        empty_update(id).secret is None,
        empty_update(id).amount_msat is None,
        empty_update(id).fee_paid_msat is None,
        empty_update(id).status is None,
{
}

} // verus!
