//! A client of a Bitcoin Core node that keeps nothing but the time of the last transaction it emitted.
use crate::chain::json::{Endpoint, Json, ReplyError, Request, RpcCall};
use crate::chain::mempool::MempoolEntry;
use crate::transaction::Transaction;
use crate::types::Txid;
use vstd::prelude::*;

verus! {

/// A client of a Bitcoin Core node.
pub struct BitcoindRpcClient {
    pub endpoint: Endpoint,
    pub rpc_credentials: String,
    pub latest_mempool_timestamp: u64,
}

/// The call for a transaction or an entry of the mempool, by an identifier whose bytes are written in
/// their own order.
fn call_by_txid(method: &str, txid: &Txid) -> (request: Request)
    ensures
        request.is_call_with_text(method@, crate::hex::hex_text(txid.0@)),
{
    let mut params: Vec<Json> = Vec::new();
    params.push(Json::Text(crate::hex::to_string(txid.0.as_slice())));
    Request::Rpc(RpcCall { method: method.to_owned(), params })
}

/// The transaction identifier that hexadecimal text holds.
///
/// Calls `bitcoin::consensus::encode::deserialize_hex` for a `bitcoin::Txid`, which reads 64
/// hexadecimal digits of either case, the first byte first, and refuses everything else.
#[verifier::external_body]
fn txid_of_hex(text: &str) -> (bytes: Option<[u8; 32]>)
    ensures
        match bytes {
            Some(bytes) => crate::hex::hex_bytes(text@) == Some(bytes@),
            None => crate::hex::hex_bytes(text@) matches Some(bytes) ==> bytes.len() != 32,
        },
{
    match bitcoin::consensus::encode::deserialize_hex::<bitcoin::Txid>(text) {
        Ok(txid) => Some(bitcoin::hashes::Hash::to_byte_array(txid)),
        Err(_) => None,
    }
}

/// Whether a value is the text of a transaction identifier.
pub open spec fn holds_txid(value: Json, txid: Txid) -> bool {
    value matches Json::Text(text) && crate::hex::hex_bytes(text@) == Some(txid.0@)
}

/// The transaction identifiers of the mempool that a reply lists. A single one that cannot be read
/// spoils the list.
pub fn read_raw_mempool(reply: &Json) -> (txids: Result<Vec<Txid>, ReplyError>)
    ensures
        match txids {
            Ok(txids) => reply matches Json::Array(values) && values@.len() == txids@.len()
                && forall|i: int|
                0 <= i < values@.len() ==> holds_txid(#[trigger] values@[i], txids@[i]),
            Err(e) => e == ReplyError::Malformed && (reply matches Json::Array(values)
                ==> !crate::chain::json::show_txids(values@)),
        },
{
    match reply {
        Json::Array(values) => {
            let mut txids: Vec<Txid> = Vec::new();
            let mut i: usize = 0;
            while i < values.len()
                invariant
                    i <= values@.len(),
                    *reply == Json::Array(*values),
                    txids@.len() == i,
                    forall|j: int| 0 <= j < i ==> holds_txid(#[trigger] values@[j], txids@[j]),
                decreases values@.len() - i,
            {
                let txid = match &values[i] {
                    Json::Text(text) => txid_of_hex(text.as_str()),
                    _ => None,
                };
                match txid {
                    Some(txid) => {
                        txids.push(Txid(txid));
                    },
                    None => {
                        assert(!crate::chain::json::shows_any_txid(values@[i as int]));
                        assert(!crate::chain::json::show_txids(values@));
                        return Err(ReplyError::Malformed);
                    },
                }
                i += 1;
            }
            Ok(txids)
        },
        _ => Err(ReplyError::Malformed),
    }
}

/// The entries of the mempool whose transactions are emitted, in their order.
pub open spec fn wanted(entries: Seq<MempoolEntry>, prev_time: u64, height: u32) -> Seq<
    MempoolEntry,
>
    decreases entries.len(),
{
    if entries.len() == 0 {
        Seq::empty()
    } else {
        let front = wanted(entries.drop_last(), prev_time, height);
        if crate::chain::mempool::to_emit(entries.last(), prev_time, height) {
            front.push(entries.last())
        } else {
            front
        }
    }
}

/// The latest of the times of entries, and of another time.
pub open spec fn latest_of(entries: Seq<MempoolEntry>, time: u64) -> u64
    decreases entries.len(),
{
    if entries.len() == 0 {
        time
    } else {
        let front = latest_of(entries.drop_last(), time);
        if entries.last().time > front {
            entries.last().time
        } else {
            front
        }
    }
}

/// What is emitted of fetched transactions: those that were found, each with the time of its entry.
pub open spec fn found(
    entries: Seq<MempoolEntry>,
    fetched: Seq<Option<Transaction>>,
) -> Seq<(Transaction, u64)>
    decreases fetched.len(),
{
    if fetched.len() == 0 {
        Seq::empty()
    } else {
        let front = found(entries, fetched.drop_last());
        match fetched.last() {
            Some(tx) => front.push((tx, entries[fetched.len() - 1].time)),
            None => front,
        }
    }
}

impl BitcoindRpcClient {
    pub fn new(host: String, port: u16, rpc_user: &str, rpc_password: &str) -> (client: Self)
        ensures
            client.endpoint.host == host,
            client.endpoint.port == port,
            client.endpoint.path@ == "/"@,
            client.rpc_credentials@ == crate::chain::bitcoind::credentials_of(
                rpc_user@,
                rpc_password@,
            ),
            client.latest_mempool_timestamp == 0,
    {
        BitcoindRpcClient {
            endpoint: crate::chain::json::endpoint(host, port),
            rpc_credentials: crate::chain::json::rpc_credentials(rpc_user, rpc_password),
            latest_mempool_timestamp: 0,
        }
    }

    /// The call for a transaction.
    pub fn get_raw_transaction(txid: &Txid) -> (request: Request)
        ensures
            request.is_call_with_text("getrawtransaction"@, crate::hex::hex_text(txid.0@)),
    {
        call_by_txid("getrawtransaction", txid)
    }

    /// The call for an entry of the mempool.
    pub fn get_mempool_entry(txid: &Txid) -> (request: Request)
        ensures
            request.is_call_with_text("getmempoolentry"@, crate::hex::hex_text(txid.0@)),
    {
        call_by_txid("getmempoolentry", txid)
    }

    /// The entries of the mempool whose transactions have to be fetched.
    pub fn entries_to_fetch(&self, entries: &Vec<MempoolEntry>, best_processed_height: u32) -> (
    to_fetch: Vec<MempoolEntry>)
        ensures
            to_fetch@ == wanted(entries@, self.latest_mempool_timestamp, best_processed_height),
    {
        let mut to_fetch: Vec<MempoolEntry> = Vec::new();
        let mut i: usize = 0;
        assert(entries@.subrange(0, 0) =~= Seq::empty());
        while i < entries.len()
            invariant
                i <= entries@.len(),
                to_fetch@ == wanted(
                    entries@.subrange(0, i as int),
                    self.latest_mempool_timestamp,
                    best_processed_height,
                ),
            decreases entries@.len() - i,
        {
            let entry = entries[i];
            proof {
                assert(entries@.subrange(0, i + 1).drop_last() =~= entries@.subrange(0, i as int));
            }
            let ancestor_within_height = entry.height <= best_processed_height;
            let is_already_emitted = entry.time <= self.latest_mempool_timestamp;
            if !(is_already_emitted && ancestor_within_height) {
                to_fetch.push(entry);
            }
            i += 1;
        }
        assert(entries@.subrange(0, i as int) =~= entries@);
        to_fetch
    }

    /// Emits the transactions that were fetched, one for each of the entries that they were fetched
    /// for. Where anything is emitted the latest time of the mempool's entries is noted.
    pub fn emit(
        &mut self,
        entries: &Vec<MempoolEntry>,
        to_fetch: &Vec<MempoolEntry>,
        fetched: Vec<Option<Transaction>>,
    ) -> (emitted: Vec<(Transaction, u64)>)
        requires
            fetched@.len() == to_fetch@.len(),
        ensures
            emitted@ == found(to_fetch@, fetched@),
            final(self).endpoint == old(self).endpoint,
            final(self).rpc_credentials == old(self).rpc_credentials,
            final(self).latest_mempool_timestamp == (if emitted@.len() > 0 {
                latest_of(entries@, old(self).latest_mempool_timestamp)
            } else {
                old(self).latest_mempool_timestamp
            }),
    {
        let ghost all = fetched@;
        let mut rest = fetched;
        let n: usize = to_fetch.len();
        let mut emitted: Vec<(Transaction, u64)> = Vec::new();
        let mut i: usize = 0;
        assert(all.subrange(0, 0) =~= Seq::empty());
        assert(rest@ =~= all.subrange(0, all.len() as int));
        while rest.len() > 0
            invariant
                i <= n,
                n == all.len(),
                all.len() == to_fetch@.len(),
                rest@ == all.subrange(i as int, all.len() as int),
                emitted@ == found(to_fetch@, all.subrange(0, i as int)),
            decreases rest@.len(),
        {
            let tx = rest.remove(0);
            proof {
                assert(tx == all[i as int]);
                assert(rest@ =~= all.subrange(i + 1, all.len() as int));
                assert(all.subrange(0, i + 1).drop_last() =~= all.subrange(0, i as int));
                assert(all.subrange(0, i + 1).last() == tx);
            }
            if let Some(tx) = tx {
                emitted.push((tx, to_fetch[i].time));
            }
            i += 1;
        }
        assert(all.subrange(0, i as int) =~= all);
        if emitted.len() > 0 {
            let mut latest: u64 = self.latest_mempool_timestamp;
            let mut j: usize = 0;
            assert(entries@.subrange(0, 0) =~= Seq::empty());
            while j < entries.len()
                invariant
                    j <= entries@.len(),
                    latest == latest_of(
                        entries@.subrange(0, j as int),
                        self.latest_mempool_timestamp,
                    ),
                decreases entries@.len() - j,
            {
                proof {
                    assert(entries@.subrange(0, j + 1).drop_last() =~= entries@.subrange(
                        0,
                        j as int,
                    ));
                }
                if entries[j].time > latest {
                    latest = entries[j].time;
                }
                j += 1;
            }
            assert(entries@.subrange(0, j as int) =~= entries@);
            self.latest_mempool_timestamp = latest;
        }
        emitted
    }
}

/// What is written as the identifier of a transaction is read back as that identifier.
pub proof fn law_txid_bytes_round_trip(txid: Txid, read: Txid)
    requires
        crate::hex::hex_bytes(crate::hex::hex_text(txid.0@)) == Some(read.0@),
    ensures
        read == txid,
{
    crate::hex::law_hex_round_trip(txid.0@);
    assert(read.0 =~= txid.0);
}

/// An entry of the mempool is fetched exactly if it came in after the last one that was emitted or depends on
/// a block above the last one that was processed, and those are fetched in the order of the mempool.
pub proof fn law_new_entries_are_fetched(
    entries: Seq<MempoolEntry>,
    prev_time: u64,
    height: u32,
)
    ensures
        wanted(entries, prev_time, height) == entries.filter(
            |entry: MempoolEntry| entry.time > prev_time || entry.height > height,
        ),
    decreases entries.len(),
{
    reveal(Seq::filter);
    if entries.len() > 0 {
        law_new_entries_are_fetched(entries.drop_last(), prev_time, height);
    }
}

/// The time that is noted is that of an entry or the time before, and none of them is later.
pub proof fn law_no_entry_is_later(entries: Seq<MempoolEntry>, time: u64, i: int)
    ensures
        latest_of(entries, time) >= time,
        0 <= i < entries.len() ==> entries[i].time <= latest_of(entries, time),
        latest_of(entries, time) == time || exists|j: int|
            0 <= j < entries.len() && (#[trigger] entries[j]).time == latest_of(entries, time),
    decreases entries.len(),
{
    if entries.len() > 0 {
        let front = entries.drop_last();
        let last = entries.len() - 1;
        law_no_entry_is_later(front, time, i);
        if i < last && i >= 0 {
            assert(front[i] == entries[i]);
        }
        if latest_of(front, time) != time {
            let j = choose|j: int|
                0 <= j < front.len() && (#[trigger] front[j]).time == latest_of(front, time);
            assert(entries[j] == front[j]);
        }
        assert(entries[last] == entries.last());
    }
}

/// Every transaction that was found is emitted with the time of its entry, and nothing else is.
pub proof fn law_what_was_found_is_emitted(
    entries: Seq<MempoolEntry>,
    fetched: Seq<Option<Transaction>>,
    i: int,
    k: int,
)
    requires
        fetched.len() <= entries.len(),
    ensures
        0 <= i < fetched.len() && fetched[i] is Some ==> found(entries, fetched).contains(
            (fetched[i]->0, entries[i].time),
        ),
        0 <= k < found(entries, fetched).len() ==> exists|j: int|
            #![trigger fetched[j]]
            0 <= j < fetched.len() && fetched[j] is Some && found(entries, fetched)[k] == (
                fetched[j]->0,
                entries[j].time,
            ),
        found(entries, fetched).len() <= fetched.len(),
    decreases fetched.len(),
{
    let all = found(entries, fetched);
    if fetched.len() > 0 {
        let front = fetched.drop_last();
        let before = found(entries, front);
        let last = fetched.len() - 1;
        law_what_was_found_is_emitted(entries, front, i, k);
        if 0 <= i < last && fetched[i] is Some {
            assert(front[i] == fetched[i]);
            let pair = (fetched[i]->0, entries[i].time);
            let m = choose|m: int| 0 <= m < before.len() && before[m] == pair;
            assert(all[m] == pair);
        } else if i == last && fetched[i] is Some {
            assert(all[before.len() as int] == (fetched[i]->0, entries[i].time));
        }
        if 0 <= k < before.len() {
            let j = choose|j: int|
                #![trigger front[j]]
                0 <= j < front.len() && front[j] is Some && before[k] == (
                    front[j]->0,
                    entries[j].time,
                );
            assert(fetched[j] == front[j]);
            assert(all[k] == before[k]);
        } else if k == before.len() && k < all.len() {
            assert(fetched[last] is Some);
        }
    }
}

/// A value of a reply holds one identifier at most, and the hexadecimal text of an identifier's bytes holds
/// just that one.
pub proof fn law_a_reply_holds_one_txid(value: Json, a: Txid, b: Txid)
    ensures
        holds_txid(value, a) && holds_txid(value, b) ==> a.0@ == b.0@,
        value matches Json::Text(text) ==> (text@ == crate::hex::hex_text(a.0@) ==> holds_txid(
            value,
            a,
        )),
{
    crate::hex::law_hex_round_trip(a.0@);
}

} // verus!
