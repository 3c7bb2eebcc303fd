//! Telling the user what happened to on-chain transactions.
use crate::payment::TxOut;
use crate::types::{BestBlock, BlockHash, OutPoint, Txid};
use crate::vec_map::VecMap;
use vstd::prelude::*;

verus! {

/// A change that a wallet saw when it was synced.
#[derive(Clone, Debug)]
pub enum WalletEvent {
    TxConfirmed { txid: Txid },
    /// A transaction is not in the chain, where it was before, or not.
    TxUnconfirmed { txid: Txid, was_confirmed: bool },
    ChainTipChanged { old_tip: BestBlock, new_tip: BestBlock },
    /// A transaction was replaced by others. Each stands beside the input that it spends too.
    TxReplaced { txid: Txid, conflicts: Vec<(usize, Txid)> },
    TxDropped { txid: Txid },
}

/// The block that holds a transaction.
#[derive(Clone, Copy, Debug)]
pub struct BlockTime {
    pub block_hash: BlockHash,
    pub height: u32,
    pub confirmation_time: u64,
}

/// What a transaction moves, from the wallet's point of view.
#[derive(Clone, Debug)]
pub struct TransactionDetails {
    pub amount_sats: i64,
    pub inputs: Vec<OutPoint>,
    pub outputs: Vec<TxOut>,
}

#[derive(Clone, Copy, Debug, PartialEq, Eq, Structural)]
pub enum SyncType {
    OnchainWallet,
    LightningWallet,
}

/// What the user is told.
#[derive(Clone, Debug)]
pub enum Event {
    OnchainTransactionConfirmed {
        txid: Txid,
        block_hash: BlockHash,
        block_height: u32,
        confirmation_time: u64,
        details: TransactionDetails,
    },
    OnchainTransactionReceived { txid: Txid, details: TransactionDetails },
    OnchainTransactionReplaced { txid: Txid, conflicts: Vec<Txid> },
    OnchainTransactionReorged { txid: Txid },
    OnchainTransactionEvicted { txid: Txid },
    SyncCompleted { sync_type: SyncType, synced_block_height: u32 },
}

/// A change, with what the wallet knows of the transaction.
pub struct SeenChange {
    pub event: WalletEvent,
    pub details: Option<TransactionDetails>,
}

/// The kinds of news that the user is told of a transaction.
#[derive(Clone, Copy, Debug, PartialEq, Eq, Structural)]
pub enum NewsKind {
    Confirmed,
    Reorged,
    Received,
    Replaced,
}

/// What a change is news of. A confirmation is no news until all wallets that follow the transaction
/// agree on it.
pub open spec fn news_of(event: WalletEvent, confirmations: Map<Txid, BlockTime>) -> Option<
    (NewsKind, Txid),
> {
    match event {
        WalletEvent::TxConfirmed { txid } => if confirmations.dom().contains(txid) {
            Some((NewsKind::Confirmed, txid))
        } else {
            None
        },
        WalletEvent::TxUnconfirmed { txid, was_confirmed } => if was_confirmed {
            Some((NewsKind::Reorged, txid))
        } else {
            Some((NewsKind::Received, txid))
        },
        WalletEvent::ChainTipChanged { .. } => None,
        WalletEvent::TxReplaced { txid, .. } => Some((NewsKind::Replaced, txid)),
        WalletEvent::TxDropped { .. } => None,
    }
}

/// Whether some news is among the changes of a list.
pub open spec fn is_reported(
    changes: Seq<SeenChange>,
    confirmations: Map<Txid, BlockTime>,
    news: (NewsKind, Txid),
) -> bool {
    exists|j: int|
        0 <= j < changes.len() && news_of((#[trigger] changes[j]).event, confirmations) == Some(
            news,
        )
}

/// The positions of the changes that the user is told of: those that are news, the first time.
pub open spec fn reported(changes: Seq<SeenChange>, confirmations: Map<Txid, BlockTime>) -> Seq<int>
    decreases changes.len(),
{
    if changes.len() == 0 {
        Seq::empty()
    } else {
        let front = changes.drop_last();
        match news_of(changes.last().event, confirmations) {
            Some(news) => if is_reported(front, confirmations, news) {
                reported(front, confirmations)
            } else {
                reported(front, confirmations).push(changes.len() - 1)
            },
            None => reported(front, confirmations),
        }
    }
}

/// The details that the user is told: nothing at all where the wallet does not know them.
pub open spec fn told_details(known: Option<TransactionDetails>, told: TransactionDetails) -> bool {
    match known {
        Some(details) => told == details,
        None => told.amount_sats == 0 && told.inputs@ == Seq::<OutPoint>::empty() && told.outputs@
            == Seq::<TxOut>::empty(),
    }
}

/// Whether an event tells of a change.
pub open spec fn tells_of(
    event: Event,
    change: SeenChange,
    confirmations: Map<Txid, BlockTime>,
) -> bool {
    match change.event {
        WalletEvent::TxConfirmed { txid } => {
            let block = confirmations[txid];
            &&& confirmations.dom().contains(txid)
            &&& event matches Event::OnchainTransactionConfirmed {
                txid: t,
                block_hash,
                block_height,
                confirmation_time,
                details,
            }
            &&& t == txid
            &&& block_hash == block.block_hash
            &&& block_height == block.height
            &&& confirmation_time == block.confirmation_time
            &&& told_details(change.details, details)
        },
        WalletEvent::TxUnconfirmed { txid, was_confirmed } => if was_confirmed {
            event == (Event::OnchainTransactionReorged { txid })
        } else {
            event matches Event::OnchainTransactionReceived { txid: t, details } && t == txid
                && told_details(change.details, details)
        },
        WalletEvent::TxReplaced { txid, conflicts } => {
            event matches Event::OnchainTransactionReplaced { txid: t, conflicts: told } && t
                == txid && told@.len() == conflicts@.len() && forall|i: int|
                0 <= i < told@.len() ==> #[trigger] told@[i] == conflicts@[i].1
        },
        _ => false,
    }
}

/// Whether a transaction is in a list.
pub fn contains_txid(txids: &Vec<Txid>, txid: &Txid) -> (found: bool)
    ensures
        found == txids@.contains(*txid),
{
    let mut i: usize = 0;
    while i < txids.len()
        invariant
            i <= txids@.len(),
            forall|j: int| 0 <= j < i ==> txids@[j] != *txid,
        decreases txids@.len() - i,
    {
        if txids[i] == *txid {
            return true;
        }
        i += 1;
    }
    false
}

/// Adds a transaction to a list, unless it is in it.
fn note(txids: &mut Vec<Txid>, txid: Txid) -> (new: bool)
    ensures
        new == !old(txids)@.contains(txid),
        final(txids)@ == (if new {
            old(txids)@.push(txid)
        } else {
            old(txids)@
        }),
{
    if contains_txid(txids, &txid) {
        false
    } else {
        txids.push(txid);
        true
    }
}

/// The transactions that a list of changes has news of one kind for.
spec fn noted(
    txids: Seq<Txid>,
    kind: NewsKind,
    changes: Seq<SeenChange>,
    confirmations: Map<Txid, BlockTime>,
) -> bool {
    forall|txid: Txid| #[trigger]
        txids.contains(txid) <==> is_reported(changes, confirmations, (kind, txid))
}

proof fn lemma_noted_step(
    before: Seq<Txid>,
    after: Seq<Txid>,
    kind: NewsKind,
    changes: Seq<SeenChange>,
    confirmations: Map<Txid, BlockTime>,
)
    requires
        changes.len() > 0,
        noted(before, kind, changes.drop_last(), confirmations),
        match news_of(changes.last().event, confirmations) {
            Some((k, txid)) => if k == kind && !before.contains(txid) {
                after == before.push(txid)
            } else {
                after == before
            },
            None => after == before,
        },
    ensures
        noted(after, kind, changes, confirmations),
{
    let front = changes.drop_last();
    assert forall|txid: Txid| #[trigger] after.contains(txid) <==> is_reported(
        changes,
        confirmations,
        (kind, txid),
    ) by {
        assert(before.contains(txid) <==> is_reported(front, confirmations, (kind, txid)));
        let this = news_of(changes.last().event, confirmations) == Some((kind, txid));
        if is_reported(front, confirmations, (kind, txid)) {
            let j = choose|j: int|
                0 <= j < front.len() && news_of((#[trigger] front[j]).event, confirmations) == Some(
                    (kind, txid),
                );
            assert(changes[j] == front[j]);
        }
        if this {
            assert(news_of(changes[changes.len() - 1].event, confirmations) == Some((kind, txid)));
        }
        if is_reported(changes, confirmations, (kind, txid)) && !this {
            let j = choose|j: int|
                0 <= j < changes.len() && news_of((#[trigger] changes[j]).event, confirmations)
                    == Some((kind, txid));
            assert(front[j] == changes[j]);
        }
        if after != before {
            let new = changes.last().event;
            let k = before.len() as int;
            assert(after[k] == news_of(new, confirmations).unwrap().1);
            if before.contains(txid) {
                let j = choose|j: int| 0 <= j < before.len() && before[j] == txid;
                assert(after[j] == txid);
            }
            if after.contains(txid) && !before.contains(txid) {
                let j = choose|j: int| 0 <= j < after.len() && after[j] == txid;
                if j < k {
                    assert(before[j] == txid);
                }
            }
        }
    }
}

fn details_or_nothing(known: Option<TransactionDetails>) -> (told: TransactionDetails)
    ensures
        told_details(known, told),
{
    match known {
        Some(details) => details,
        None => TransactionDetails { amount_sats: 0, inputs: Vec::new(), outputs: Vec::new() },
    }
}

fn conflicting_txids(conflicts: &Vec<(usize, Txid)>) -> (txids: Vec<Txid>)
    ensures
        txids@.len() == conflicts@.len(),
        forall|i: int| 0 <= i < txids@.len() ==> #[trigger] txids@[i] == conflicts@[i].1,
{
    let mut txids: Vec<Txid> = Vec::new();
    let mut i: usize = 0;
    while i < conflicts.len()
        invariant
            i <= conflicts@.len(),
            txids@.len() == i,
            forall|j: int| 0 <= j < i ==> #[trigger] txids@[j] == conflicts@[j].1,
        decreases conflicts@.len() - i,
    {
        txids.push(conflicts[i].1);
        i += 1;
    }
    txids
}

/// What the user is told of the changes that the wallets saw. A transaction that touches several
/// wallets is seen by each of them, and told of once for each kind of news. That the tip of the chain
/// moved is not told, and dropped transactions are told of as evicted ones.
pub fn process_wallet_events(
    changes: Vec<SeenChange>,
    confirmations: &VecMap<Txid, BlockTime>,
) -> (events: Vec<Event>)
    ensures
        events@.len() == reported(changes@, confirmations@).len(),
        forall|k: int|
            0 <= k < events@.len() ==> tells_of(
                #[trigger] events@[k],
                changes@[reported(changes@, confirmations@)[k]],
                confirmations@,
            ),
{
    let ghost all = changes@;
    let ghost confs = confirmations@;
    let mut rest = changes;
    let mut events: Vec<Event> = Vec::new();
    let mut received: Vec<Txid> = Vec::new();
    let mut confirmed: Vec<Txid> = Vec::new();
    let mut reorged: Vec<Txid> = Vec::new();
    let mut replaced: Vec<Txid> = Vec::new();
    let ghost mut i: int = 0;
    assert(all.subrange(0, 0) =~= Seq::empty());
    assert(rest@ =~= all.subrange(0, all.len() as int));
    while rest.len() > 0
        invariant
            0 <= i <= all.len(),
            confs == confirmations@,
            rest@ == all.subrange(i, all.len() as int),
            noted(received@, NewsKind::Received, all.subrange(0, i), confs),
            noted(confirmed@, NewsKind::Confirmed, all.subrange(0, i), confs),
            noted(reorged@, NewsKind::Reorged, all.subrange(0, i), confs),
            noted(replaced@, NewsKind::Replaced, all.subrange(0, i), confs),
            events@.len() == reported(all.subrange(0, i), confs).len(),
            forall|k: int|
                0 <= k < events@.len() ==> 0 <= (#[trigger] reported(all.subrange(0, i), confs)[k])
                    < i,
            forall|k: int|
                0 <= k < events@.len() ==> tells_of(
                    #[trigger] events@[k],
                    all[reported(all.subrange(0, i), confs)[k]],
                    confs,
                ),
        decreases rest@.len(),
    {
        let change = rest.remove(0);
        let ghost before = (received@, confirmed@, reorged@, replaced@);
        let ghost told_before = events@;
        let ghost front = all.subrange(0, i);
        let ghost now = all.subrange(0, i + 1);
        proof {
            assert(change == all[i]);
            assert(rest@ =~= all.subrange(i + 1, all.len() as int));
            assert(now.drop_last() =~= front);
            assert(now.last() == all[i]);
            i = i + 1;
        }
        match change.event {
            WalletEvent::TxConfirmed { txid } => {
                if let Some(block) = confirmations.get(&txid) {
                    if note(&mut confirmed, txid) {
                        let details = details_or_nothing(change.details);
                        events.push(
                            Event::OnchainTransactionConfirmed {
                                txid,
                                block_hash: block.block_hash,
                                block_height: block.height,
                                confirmation_time: block.confirmation_time,
                                details,
                            },
                        );
                    }
                }
            },
            WalletEvent::TxUnconfirmed { txid, was_confirmed } => {
                if was_confirmed {
                    if note(&mut reorged, txid) {
                        events.push(Event::OnchainTransactionReorged { txid });
                    }
                } else {
                    if note(&mut received, txid) {
                        let details = details_or_nothing(change.details);
                        events.push(Event::OnchainTransactionReceived { txid, details });
                    }
                }
            },
            WalletEvent::ChainTipChanged { .. } => {},
            WalletEvent::TxReplaced { txid, conflicts } => {
                if note(&mut replaced, txid) {
                    let conflicts = conflicting_txids(&conflicts);
                    events.push(Event::OnchainTransactionReplaced { txid, conflicts });
                }
            },
            WalletEvent::TxDropped { .. } => {},
        }
        proof {
            lemma_noted_step(before.0, received@, NewsKind::Received, now, confs);
            lemma_noted_step(before.1, confirmed@, NewsKind::Confirmed, now, confs);
            lemma_noted_step(before.2, reorged@, NewsKind::Reorged, now, confs);
            lemma_noted_step(before.3, replaced@, NewsKind::Replaced, now, confs);
            assert forall|k: int| 0 <= k < events@.len() implies tells_of(
                #[trigger] events@[k],
                all[reported(now, confs)[k]],
                confs,
            ) by {
                if k < told_before.len() {
                    assert(events@[k] == told_before[k]);
                    assert(reported(now, confs)[k] == reported(front, confs)[k]);
                }
            }
        }
    }
    assert(all.subrange(0, i) =~= all);
    events
}

/// The positions of the changes that are told of are in the list.
proof fn lemma_reported(changes: Seq<SeenChange>, confirmations: Map<Txid, BlockTime>)
    ensures
        forall|k: int|
            0 <= k < reported(changes, confirmations).len() ==> 0 <= (#[trigger] reported(
                changes,
                confirmations,
            )[k]) < changes.len(),
    decreases changes.len(),
{
    if changes.len() > 0 {
        let told_front = reported(changes.drop_last(), confirmations);
        lemma_reported(changes.drop_last(), confirmations);
        assert forall|k: int| 0 <= k < reported(changes, confirmations).len() implies 0 <= (
        #[trigger] reported(changes, confirmations)[k]) < changes.len() by {
            if k < told_front.len() {
                assert(reported(changes, confirmations)[k] == told_front[k]);
            }
        }
    }
}

/// Everything that is news of a transaction is told.
pub proof fn law_all_news_is_told(
    changes: Seq<SeenChange>,
    confirmations: Map<Txid, BlockTime>,
    i: int,
)
    requires
        0 <= i < changes.len(),
        news_of(changes[i].event, confirmations) is Some,
    ensures
        exists|k: int|
            0 <= k < reported(changes, confirmations).len() && news_of(
                changes[#[trigger] reported(changes, confirmations)[k]].event,
                confirmations,
            ) == news_of(changes[i].event, confirmations),
    decreases changes.len(),
{
    let front = changes.drop_last();
    let told = reported(changes, confirmations);
    let told_front = reported(front, confirmations);
    let news = news_of(changes[i].event, confirmations);
    lemma_reported(front, confirmations);
    if i < front.len() || is_reported(front, confirmations, news.unwrap()) {
        let j = if i < front.len() {
            i
        } else {
            choose|j: int|
                0 <= j < front.len() && news_of((#[trigger] front[j]).event, confirmations) == news
        };
        assert(news_of(front[j].event, confirmations) == news);
        law_all_news_is_told(front, confirmations, j);
        let k = choose|k: int|
            0 <= k < told_front.len() && news_of(
                front[#[trigger] told_front[k]].event,
                confirmations,
            ) == news;
        assert(told[k] == told_front[k]);
        assert(changes[told[k]] == front[told_front[k]]);
    } else {
        let k = told.len() - 1;
        assert(told[k] == changes.len() - 1);
    }
}

/// No news of a transaction is told twice.
pub proof fn law_no_news_is_told_twice(
    changes: Seq<SeenChange>,
    confirmations: Map<Txid, BlockTime>,
    a: int,
    b: int,
)
    requires
        0 <= a < b < reported(changes, confirmations).len(),
    ensures
        news_of(changes[reported(changes, confirmations)[a]].event, confirmations) != news_of(
            changes[reported(changes, confirmations)[b]].event,
            confirmations,
        ),
    decreases changes.len(),
{
    let front = changes.drop_last();
    let told = reported(changes, confirmations);
    let told_front = reported(front, confirmations);
    lemma_reported(front, confirmations);
    if b < told_front.len() {
        law_no_news_is_told_twice(front, confirmations, a, b);
        assert(changes[told[a]] == front[told_front[a]]);
        assert(changes[told[b]] == front[told_front[b]]);
    } else {
        assert(told[a] == told_front[a]);
        assert(front[told_front[a]] == changes[told[a]]);
    }
}

/// Whether a transaction that was waiting for its confirmation is gone: it neither waits any more nor
/// is in the chain.
pub open spec fn is_evicted(
    txid: Txid,
    unconfirmed: Seq<Txid>,
    confirmations: Map<Txid, BlockTime>,
) -> bool {
    !unconfirmed.contains(txid) && !confirmations.dom().contains(txid)
}

/// The evicted transactions among those that waited before.
pub open spec fn evicted(
    previous: Seq<Txid>,
    unconfirmed: Seq<Txid>,
    confirmations: Map<Txid, BlockTime>,
) -> Seq<Txid> {
    previous.filter(|txid: Txid| is_evicted(txid, unconfirmed, confirmations))
}

/// The transactions that were unconfirmed before a sync, and now are neither unconfirmed nor
/// confirmed.
pub fn check_evicted_transactions(
    previous: &Vec<Txid>,
    unconfirmed: &Vec<Txid>,
    confirmations: &VecMap<Txid, BlockTime>,
) -> (txids: Vec<Txid>)
    ensures
        txids@ == evicted(previous@, unconfirmed@, confirmations@),
{
    let mut txids: Vec<Txid> = Vec::new();
    let mut i: usize = 0;
    assert(previous@.subrange(0, 0) =~= Seq::empty());
    proof {
        reveal(Seq::filter);
    }
    while i < previous.len()
        invariant
            i <= previous@.len(),
            txids@ == evicted(previous@.subrange(0, i as int), unconfirmed@, confirmations@),
        decreases previous@.len() - i,
    {
        let txid = previous[i];
        proof {
            reveal(Seq::filter);
            assert(previous@.subrange(0, i + 1).drop_last() =~= previous@.subrange(0, i as int));
        }
        if !contains_txid(unconfirmed, &txid) && !confirmations.contains_key(&txid) {
            txids.push(txid);
        }
        i += 1;
    }
    assert(previous@.subrange(0, i as int) =~= previous@);
    txids
}

/// The news of evicted transactions.
pub fn evicted_events(txids: &Vec<Txid>) -> (events: Vec<Event>)
    ensures
        events@.len() == txids@.len(),
        forall|i: int|
            0 <= i < events@.len() ==> #[trigger] events@[i] == (
            Event::OnchainTransactionEvicted { txid: txids@[i] }),
{
    let mut events: Vec<Event> = Vec::new();
    let mut i: usize = 0;
    while i < txids.len()
        invariant
            i <= txids@.len(),
            events@.len() == i,
            forall|j: int|
                0 <= j < i ==> #[trigger] events@[j] == (
                Event::OnchainTransactionEvicted { txid: txids@[j] }),
        decreases txids@.len() - i,
    {
        events.push(Event::OnchainTransactionEvicted { txid: txids[i] });
        i += 1;
    }
    events
}

/// Every event that carries details carries those that the wallet knows of the change that it tells of:
/// amount, inputs and outputs. Where the wallet knows none, there is an amount of zero and nothing else.
pub proof fn law_events_carry_what_the_wallet_knows(
    events: Seq<Event>,
    changes: Seq<SeenChange>,
    confirmations: Map<Txid, BlockTime>,
    k: int,
)
    requires
        events.len() == reported(changes, confirmations).len(),
        forall|k: int|
            0 <= k < events.len() ==> tells_of(
                #[trigger] events[k],
                changes[reported(changes, confirmations)[k]],
                confirmations,
            ),
        0 <= k < events.len(),
    ensures
        ({
            let change = changes[reported(changes, confirmations)[k]];
            let told = match events[k] {
                Event::OnchainTransactionReceived { details, .. } => Some(details),
                Event::OnchainTransactionConfirmed { details, .. } => Some(details),
                _ => None,
            };
            &&& told is Some && change.details is Some ==> told == change.details
            &&& told is Some && change.details is None ==> told->0.amount_sats == 0
                && told->0.inputs@.len() == 0 && told->0.outputs@.len() == 0
            &&& told is Some == (change.event is TxConfirmed || change.event matches
                WalletEvent::TxUnconfirmed { was_confirmed: false, .. })
        }),
{
    assert(tells_of(events[k], changes[reported(changes, confirmations)[k]], confirmations));
}

/// A received transaction is told of with its id and with what is known of it, and so is nothing else.
pub proof fn law_unconfirmed_transactions_are_received_or_reorged(
    event: Event,
    txid: Txid,
    details: Option<TransactionDetails>,
    confirmations: Map<Txid, BlockTime>,
)
    ensures
        ({
            let seen = SeenChange {
                event: WalletEvent::TxUnconfirmed { txid, was_confirmed: false },
                details,
            };
            let undone = SeenChange {
                event: WalletEvent::TxUnconfirmed { txid, was_confirmed: true },
                details,
            };
            &&& tells_of(event, seen, confirmations) ==> event is OnchainTransactionReceived
                && event->OnchainTransactionReceived_txid == txid
            &&& details is Some ==> (tells_of(event, seen, confirmations) <==> event == (
            Event::OnchainTransactionReceived { txid, details: details->0 }))
            &&& tells_of(event, undone, confirmations) <==> event == (
            Event::OnchainTransactionReorged { txid })
        }),
{
}

/// A confirmation is told of with the block that the wallets agree on: its hash, its height and its time.
/// Without such a block there is nothing to tell.
pub proof fn law_confirmations_name_their_block(
    event: Event,
    txid: Txid,
    details: TransactionDetails,
    confirmations: Map<Txid, BlockTime>,
)
    ensures
        tells_of(
            event,
            (SeenChange { event: WalletEvent::TxConfirmed { txid }, details: Some(details) }),
            confirmations,
        ) <==> confirmations.dom().contains(txid) && event == (Event::OnchainTransactionConfirmed {
            txid,
            block_hash: confirmations[txid].block_hash,
            block_height: confirmations[txid].height,
            confirmation_time: confirmations[txid].confirmation_time,
            details,
        }),
{
}

/// A replacement is told of with the ids of all transactions that took the place of the replaced one, in
/// the order in which the wallet names them.
pub proof fn law_replacements_name_all_conflicts(
    event: Event,
    txid: Txid,
    conflicts: Vec<(usize, Txid)>,
    details: Option<TransactionDetails>,
    confirmations: Map<Txid, BlockTime>,
)
    requires
        tells_of(
            event,
            (SeenChange { event: WalletEvent::TxReplaced { txid, conflicts }, details }),
            confirmations,
        ),
    ensures
        event matches Event::OnchainTransactionReplaced { txid: t, conflicts: told } && t == txid
            && told@ == conflicts@.map_values(|c: (usize, Txid)| c.1),
{
    match event {
        Event::OnchainTransactionReplaced { conflicts: told, .. } => {
            assert(told@ =~= conflicts@.map_values(|c: (usize, Txid)| c.1));
        },
        _ => {},
    }
}

/// What is news: every transaction that appears, that is taken back by a reorganization or that is
/// replaced, and every confirmation that the wallets agree on. A moved tip and a dropped transaction are
/// none. News of different kinds, or of different transactions, differ.
pub proof fn law_what_is_news(
    txid: Txid,
    conflicts: Vec<(usize, Txid)>,
    old_tip: BestBlock,
    new_tip: BestBlock,
    confirmations: Map<Txid, BlockTime>,
)
    ensures
        news_of(
            WalletEvent::TxUnconfirmed { txid, was_confirmed: false },
            confirmations,
        ) == Some((NewsKind::Received, txid)),
        news_of(
            WalletEvent::TxUnconfirmed { txid, was_confirmed: true },
            confirmations,
        ) == Some((NewsKind::Reorged, txid)),
        news_of(WalletEvent::TxReplaced { txid, conflicts }, confirmations) == Some(
            (NewsKind::Replaced, txid),
        ),
        confirmations.dom().contains(txid) ==> news_of(
            WalletEvent::TxConfirmed { txid },
            confirmations,
        ) == Some((NewsKind::Confirmed, txid)),
        !confirmations.dom().contains(txid) ==> news_of(
            WalletEvent::TxConfirmed { txid },
            confirmations,
        ) is None,
        news_of(WalletEvent::TxDropped { txid }, confirmations) is None,
        news_of(WalletEvent::ChainTipChanged { old_tip, new_tip }, confirmations) is None,
{
}

/// What is told comes in the order in which it was seen, each time at the first change that it is news of.
pub proof fn law_news_is_told_when_it_is_first_seen(
    changes: Seq<SeenChange>,
    confirmations: Map<Txid, BlockTime>,
    k: int,
)
    requires
        0 <= k < reported(changes, confirmations).len(),
    ensures
        ({
            let at = reported(changes, confirmations)[k];
            &&& 0 <= at < changes.len()
            &&& news_of(changes[at].event, confirmations) is Some
            &&& forall|j: int|
                0 <= j < at ==> news_of((#[trigger] changes[j]).event, confirmations) != news_of(
                    changes[at].event,
                    confirmations,
                )
            &&& k > 0 ==> reported(changes, confirmations)[k - 1] < at
        }),
    decreases changes.len(),
{
    let front = changes.drop_last();
    let told = reported(changes, confirmations);
    let told_front = reported(front, confirmations);
    lemma_reported(front, confirmations);
    if k < told_front.len() {
        law_news_is_told_when_it_is_first_seen(front, confirmations, k);
        let at = told[k];
        assert(at == told_front[k]);
        assert(changes[at] == front[at]);
        assert forall|j: int| 0 <= j < at implies news_of(
            (#[trigger] changes[j]).event,
            confirmations,
        ) != news_of(changes[at].event, confirmations) by {
            assert(changes[j] == front[j]);
        }
        if k > 0 {
            assert(told[k - 1] == told_front[k - 1]);
        }
    } else {
        let at = changes.len() - 1;
        assert forall|j: int| 0 <= j < at implies news_of(
            (#[trigger] changes[j]).event,
            confirmations,
        ) != news_of(changes[at].event, confirmations) by {
            assert(changes[j] == front[j]);
        }
        if k > 0 {
            assert(told[k - 1] == told_front[k - 1]);
        }
    }
}

/// A transaction is evicted exactly if it waited before, and now neither waits nor is confirmed.
pub proof fn law_evicted_transactions_are_gone(
    previous: Seq<Txid>,
    unconfirmed: Seq<Txid>,
    confirmations: Map<Txid, BlockTime>,
    txid: Txid,
)
    ensures
        evicted(previous, unconfirmed, confirmations).contains(txid) <==> previous.contains(txid)
            && !unconfirmed.contains(txid) && !confirmations.dom().contains(txid),
    decreases previous.len(),
{
    reveal(Seq::filter);
    let gone = evicted(previous, unconfirmed, confirmations);
    if previous.len() > 0 {
        let front = previous.drop_last();
        let before = evicted(front, unconfirmed, confirmations);
        law_evicted_transactions_are_gone(front, unconfirmed, confirmations, txid);
        assert(previous =~= front.push(previous.last()));
        if gone != before {
            assert(gone == before.push(previous.last()));
            assert(gone[before.len() as int] == previous.last());
            if before.contains(txid) {
                let i = choose|i: int| 0 <= i < before.len() && before[i] == txid;
                assert(gone[i] == txid);
            }
        }
        if front.contains(txid) {
            let i = choose|i: int| 0 <= i < front.len() && front[i] == txid;
            assert(previous[i] == txid);
        }
        if previous.contains(txid) && !front.contains(txid) {
            let i = choose|i: int| 0 <= i < previous.len() && previous[i] == txid;
            if i < front.len() {
                assert(front[i] == txid);
            }
        }
        if previous.last() == txid {
            assert(previous[previous.len() - 1] == txid);
        }
    }
}

/// What the user is told of the changes of a wallet: every event comes from one of the changes and carries
/// the details that the wallet knows of it.
pub proof fn law_wallet_events_come_from_changes(
    changes: Vec<SeenChange>,
    confirmations: VecMap<Txid, BlockTime>,
    events: Vec<Event>,
    k: int,
)
    requires
        call_ensures(process_wallet_events, (changes, &confirmations), events),
        0 <= k < events@.len(),
    ensures
        exists|at: int|
            #![trigger changes@[at]]
            0 <= at < changes@.len() && {
                let change = changes@[at];
                &&& events@[k] matches Event::OnchainTransactionReceived { txid, details }
                    ==> change.event == (WalletEvent::TxUnconfirmed { txid, was_confirmed: false })
                    && (change.details is Some ==> change.details == Some(details))
                &&& events@[k] matches Event::OnchainTransactionReorged { txid } ==> change.event
                    == (WalletEvent::TxUnconfirmed { txid, was_confirmed: true })
                &&& events@[k] matches Event::OnchainTransactionConfirmed {
                    txid,
                    details,
                    block_hash,
                    block_height,
                    confirmation_time,
                } ==> change.event == (WalletEvent::TxConfirmed { txid })
                    && confirmations@.dom().contains(txid) && confirmations@[txid].block_hash
                    == block_hash && confirmations@[txid].height == block_height
                    && confirmations@[txid].confirmation_time == confirmation_time && (
                change.details is Some ==> change.details == Some(details))
                &&& events@[k] is OnchainTransactionReceived || events@[k]
                    is OnchainTransactionReorged || events@[k] is OnchainTransactionConfirmed
                    || events@[k] is OnchainTransactionReplaced
            },
{
    law_news_is_told_when_it_is_first_seen(changes@, confirmations@, k);
    let at = reported(changes@, confirmations@)[k];
    assert(tells_of(events@[k], changes@[at], confirmations@));
    assert(0 <= at < changes@.len());
}

/// What is found to be evicted was unconfirmed before, and is neither unconfirmed nor confirmed now; and the
/// user is told of each of these.
pub proof fn law_evictions_are_found_and_told(
    previous: Vec<Txid>,
    unconfirmed: Vec<Txid>,
    confirmations: VecMap<Txid, BlockTime>,
    txids: Vec<Txid>,
    events: Vec<Event>,
    txid: Txid,
    i: int,
)
    requires
        call_ensures(check_evicted_transactions, (&previous, &unconfirmed, &confirmations), txids),
        call_ensures(evicted_events, (&txids,), events),
    ensures
        txids@.contains(txid) <==> previous@.contains(txid) && !unconfirmed@.contains(txid)
            && !confirmations@.dom().contains(txid),
        events@.len() == txids@.len(),
        0 <= i < txids@.len() ==> events@[i] == (Event::OnchainTransactionEvicted {
            txid: txids@[i],
        }),
{
    law_evicted_transactions_are_gone(previous@, unconfirmed@, confirmations@, txid);
}

} // verus!
