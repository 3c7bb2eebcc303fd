//! Following what was registered on the chain, with a server that can be asked for transactions and
//! blocks.
use crate::chain::electrum::WatchedOutput;
use crate::error::Error;
use crate::item_set::{ItemSet, SetItem};
use crate::types::{bytes_eq, slices_eq, BlockHash, OutPoint, Txid};
use vstd::prelude::*;

verus! {

impl SetItem for Txid {
    type Model = Txid;

    open spec fn model(&self) -> Txid {
        *self
    }

    fn same_item(&self, other: &Self) -> (same: bool) {
        bytes_eq(&self.0, &other.0)
    }

    fn copy_item(&self) -> (copy: Self) {
        *self
    }
}

impl SetItem for WatchedOutput {
    type Model = (Option<BlockHash>, OutPoint, Seq<u8>);

    open spec fn model(&self) -> (Option<BlockHash>, OutPoint, Seq<u8>) {
        (self.block_hash, self.outpoint, self.script_pubkey@)
    }

    fn same_item(&self, other: &Self) -> (same: bool) {
        let same_block = match (self.block_hash, other.block_hash) {
            (Some(a), Some(b)) => bytes_eq(&a.0, &b.0),
            (None, None) => true,
            _ => false,
        };
        let same_outpoint = bytes_eq(&self.outpoint.txid.0, &other.outpoint.txid.0)
            && self.outpoint.vout == other.outpoint.vout;
        same_block && same_outpoint && slices_eq(
            self.script_pubkey.as_slice(),
            other.script_pubkey.as_slice(),
        )
    }

    fn copy_item(&self) -> (copy: Self) {
        let mut script_pubkey: Vec<u8> = Vec::new();
        script_pubkey.extend_from_slice(self.script_pubkey.as_slice());
        assert(script_pubkey@ =~= self.script_pubkey@);
        WatchedOutput { block_hash: self.block_hash, outpoint: self.outpoint, script_pubkey }
    }
}

/// What was registered, and how far the chain was followed.
pub struct LdkLiteChainAccess {
    /// Transactions that were registered and have to be processed.
    pub queued_transactions: ItemSet<Txid>,
    /// Transactions that were previously processed, but must not be forgotten yet.
    pub watched_transactions: ItemSet<Txid>,
    /// Outputs that were registered and have to be processed.
    pub queued_outputs: ItemSet<WatchedOutput>,
    /// Outputs that were previously processed, but must not be forgotten yet.
    pub watched_outputs: ItemSet<WatchedOutput>,
    /// The tip hash observed during our last sync.
    pub last_sync_hash: Option<BlockHash>,
}

/// What is done next in a sync.
#[derive(Clone, Copy, Debug)]
pub enum AccessStep {
    /// See which transactions are not confirmed any more, and say so.
    SyncUnconfirmed { new_tip: bool },
    /// Tell of this block.
    UpdateBestBlock(BlockHash),
    /// Look for the transactions and outputs that were registered.
    GetConfirmed,
    /// Ask for the tip once more.
    RecheckTip,
    /// Tell of the transactions that were found.
    SyncConfirmed,
    /// Begin another round with this tip.
    Restart(BlockHash),
    /// The sync is over.
    Return(Result<(), Error>),
}

/// The step after one that may find the chain changed under way, in which case the round is begun again.
pub open spec fn step_or_restart(
    result: Result<(), Error>,
    tip_hash: BlockHash,
    step: AccessStep,
) -> AccessStep {
    match result {
        Ok(()) => step,
        Err(Error::ChainAccessInconsistency) => AccessStep::Restart(tip_hash),
        Err(e) => AccessStep::Return(Err(e)),
    }
}

impl LdkLiteChainAccess {
    /// Nothing was registered yet.
    pub fn new() -> (access: Self)
        ensures
            access.queued_transactions.contents() == Set::<Txid>::empty(),
            access.watched_transactions.contents() == Set::<Txid>::empty(),
            access.queued_outputs.contents().is_empty(),
            access.watched_outputs.contents().is_empty(),
            access.last_sync_hash is None,
    {
        LdkLiteChainAccess {
            queued_transactions: ItemSet::new(),
            watched_transactions: ItemSet::new(),
            queued_outputs: ItemSet::new(),
            watched_outputs: ItemSet::new(),
            last_sync_hash: None,
        }
    }

    /// Registers a transaction.
    pub fn register_tx(&mut self, txid: Txid)
        ensures
            final(self).queued_transactions.contents() == old(
                self,
            ).queued_transactions.contents().insert(txid),
            *final(self) == (LdkLiteChainAccess {
                queued_transactions: final(self).queued_transactions,
                ..*old(self)
            }),
    {
        self.queued_transactions.insert(txid);
    }

    /// Registers an output.
    pub fn register_output(&mut self, output: WatchedOutput)
        ensures
            final(self).queued_outputs.contents() == old(self).queued_outputs.contents().insert(
                output.model(),
            ),
            *final(self) == (LdkLiteChainAccess {
                queued_outputs: final(self).queued_outputs,
                ..*old(self)
            }),
    {
        self.queued_outputs.insert(output);
    }

    /// Whether anything was registered that was not processed yet.
    pub open spec fn has_queued(self) -> bool {
        !self.queued_transactions.contents().is_empty() || !self.queued_outputs.contents().is_empty()
    }

    /// Processes the transaction and output queues, returns `true` if new items had been registered.
    pub fn process_queues(&mut self) -> (pending_registrations: bool)
        ensures
            pending_registrations == old(self).has_queued(),
            !final(self).has_queued(),
            final(self).watched_transactions.contents() == old(
                self,
            ).watched_transactions.contents().union(old(self).queued_transactions.contents()),
            final(self).watched_outputs.contents() == old(self).watched_outputs.contents().union(
                old(self).queued_outputs.contents(),
            ),
            final(self).last_sync_hash == old(self).last_sync_hash,
    {
        let mut pending_registrations = false;
        if !self.queued_transactions.is_empty() {
            pending_registrations = true;
            self.watched_transactions.take_all(&mut self.queued_transactions);
        } else {
            assert(self.watched_transactions.contents() =~= old(
                self,
            ).watched_transactions.contents().union(old(self).queued_transactions.contents()));
        }
        if !self.queued_outputs.is_empty() {
            pending_registrations = true;
            self.watched_outputs.take_all(&mut self.queued_outputs);
        } else {
            assert(self.watched_outputs.contents() =~= old(self).watched_outputs.contents().union(
                old(self).queued_outputs.contents(),
            ));
        }
        pending_registrations
    }

    /// Begins a round of a sync. The sync is over when everything registered has been processed and the
    /// tip is the one of the last round.
    pub fn begin_round(&mut self, tip_hash: BlockHash) -> (step: AccessStep)
        ensures
            step == (if old(self).has_queued() || old(self).last_sync_hash != Some(tip_hash) {
                AccessStep::SyncUnconfirmed { new_tip: old(self).last_sync_hash != Some(tip_hash) }
            } else {
                AccessStep::Return(Ok(()))
            }),
            !final(self).has_queued(),
            final(self).watched_transactions.contents() == old(
                self,
            ).watched_transactions.contents().union(old(self).queued_transactions.contents()),
            final(self).watched_outputs.contents() == old(self).watched_outputs.contents().union(
                old(self).queued_outputs.contents(),
            ),
            final(self).last_sync_hash == old(self).last_sync_hash,
    {
        let pending_registrations = self.process_queues();
        let new_tip = match self.last_sync_hash {
            Some(hash) => hash != tip_hash,
            None => true,
        };
        if pending_registrations || new_tip {
            AccessStep::SyncUnconfirmed { new_tip }
        } else {
            AccessStep::Return(Ok(()))
        }
    }

    /// The step after the transactions that are not confirmed any more. A new tip is remembered before
    /// anybody is told of it.
    pub fn after_unconfirmed(
        &mut self,
        result: Result<(), Error>,
        tip_hash: BlockHash,
        new_tip: bool,
    ) -> (step: AccessStep)
        ensures
            match result {
                Err(e) => step == AccessStep::Return(Err(e)) && *final(self) == *old(self),
                Ok(()) => if new_tip {
                    step == AccessStep::UpdateBestBlock(tip_hash) && *final(self) == (
                    LdkLiteChainAccess { last_sync_hash: Some(tip_hash), ..*old(self) })
                } else {
                    step == AccessStep::GetConfirmed && *final(self) == *old(self)
                },
            },
    {
        match result {
            Err(e) => AccessStep::Return(Err(e)),
            Ok(()) => {
                if new_tip {
                    self.last_sync_hash = Some(tip_hash);
                    AccessStep::UpdateBestBlock(tip_hash)
                } else {
                    AccessStep::GetConfirmed
                }
            },
        }
    }

    /// The step after the tip was asked for once more, to see that nothing changed in the meantime.
    pub fn after_recheck(&self, tip_hash: Result<BlockHash, Error>) -> (step: AccessStep)
        ensures
            step == (match tip_hash {
                Err(e) => AccessStep::Return(Err(e)),
                Ok(tip_hash) => if self.last_sync_hash == Some(tip_hash) {
                    AccessStep::SyncConfirmed
                } else {
                    AccessStep::Restart(tip_hash)
                },
            }),
    {
        match tip_hash {
            Err(e) => AccessStep::Return(Err(e)),
            Ok(tip_hash) => {
                let unchanged = match self.last_sync_hash {
                    Some(hash) => hash == tip_hash,
                    None => false,
                };
                if unchanged {
                    AccessStep::SyncConfirmed
                } else {
                    AccessStep::Restart(tip_hash)
                }
            },
        }
    }

    /// Ends a round: from now on only what is still unconfirmed and unspent is watched. What was
    /// registered in the meantime stays queued.
    pub fn sync_confirmed_transactions(
        &mut self,
        unconfirmed_registered_txs: ItemSet<Txid>,
        unspent_registered_outputs: ItemSet<WatchedOutput>,
    )
        ensures
            *final(self) == (LdkLiteChainAccess {
                watched_transactions: unconfirmed_registered_txs,
                watched_outputs: unspent_registered_outputs,
                ..*old(self)
            }),
    {
        self.watched_transactions = unconfirmed_registered_txs;
        self.watched_outputs = unspent_registered_outputs;
    }
}

/// The step after the new tip was told of.
pub fn after_best_block(result: Result<(), Error>, tip_hash: BlockHash) -> (step: AccessStep)
    ensures
        step == step_or_restart(result, tip_hash, AccessStep::GetConfirmed),
{
    match result {
        Ok(()) => AccessStep::GetConfirmed,
        Err(Error::ChainAccessInconsistency) => AccessStep::Restart(tip_hash),
        Err(e) => AccessStep::Return(Err(e)),
    }
}

/// The step after the registered transactions and outputs were looked for.
pub fn after_confirmed(result: Result<(), Error>, tip_hash: BlockHash) -> (step: AccessStep)
    ensures
        step == step_or_restart(result, tip_hash, AccessStep::RecheckTip),
{
    match result {
        Ok(()) => AccessStep::RecheckTip,
        Err(Error::ChainAccessInconsistency) => AccessStep::Restart(tip_hash),
        Err(e) => AccessStep::Return(Err(e)),
    }
}

/// The height that the new tip is told of with, where it has one. A tip that is not in the best chain
/// means that the chain changed under way.
pub fn sync_best_block_updated(in_best_chain: bool, height: Option<u32>) -> (update: Result<
    Option<u32>,
    Error,
>)
    ensures
        update == (if in_best_chain {
            Ok::<Option<u32>, Error>(height)
        } else {
            Err::<Option<u32>, Error>(Error::ChainAccessInconsistency)
        }),
{
    if in_best_chain {
        Ok(height)
    } else {
        Err(Error::ChainAccessInconsistency)
    }
}

/// Whether a transaction that was thought confirmed is not confirmed any more: it has no block, or its
/// block is not in the best chain.
pub fn is_unconfirmed(block_hash: Option<BlockHash>, in_best_chain: bool) -> (unconfirmed: bool)
    ensures
        unconfirmed == (block_hash is None || !in_best_chain),
{
    block_hash.is_none() || !in_best_chain
}

/// The hash of the block that a merkle block is of, and the positions in it of the transactions that it
/// proves, going by the header of the `bitcoin::MerkleBlock` that bytes hold and by `extract_matches` of
/// its partial merkle tree. `None` where the bytes hold none.
pub uninterp spec fn merkle_proof_of(bytes: Seq<u8>) -> Option<(Seq<u8>, Seq<u32>)>;

/// What a merkle block proves.
#[derive(Debug)]
pub struct MerkleProof {
    /// The block that the transactions are in.
    pub block_hash: BlockHash,
    /// Their positions in it.
    pub positions: Vec<u32>,
}

/// What a merkle block proves.
///
/// Calls `bitcoin::consensus::deserialize`, and on the `bitcoin::MerkleBlock` it gives
/// `bitcoin::block::Header::block_hash` and `bitcoin::merkle_tree::PartialMerkleTree::extract_matches`,
/// of which the positions are taken and the error, if there is one, is not. All of it depends on the
/// bytes alone.
#[verifier::external_body]
fn read_merkle_block(bytes: &[u8]) -> (proven: Option<MerkleProof>)
    ensures
        match proven {
            Some(proven) => merkle_proof_of(bytes@) == Some((proven.block_hash.0@, proven.positions@)),
            None => merkle_proof_of(bytes@) is None,
        },
{
    let block: bitcoin::MerkleBlock = bitcoin::consensus::deserialize(bytes).ok()?;
    let mut txids: Vec<bitcoin::Txid> = Vec::new();
    let mut positions: Vec<u32> = Vec::new();
    let _ = block.txn.extract_matches(&mut txids, &mut positions);
    let hash = bitcoin::hashes::Hash::to_byte_array(block.header.block_hash());
    Some(MerkleProof { block_hash: BlockHash(hash), positions })
}

/// What is known of a transaction that a block may hold.
#[derive(Clone, Copy, Debug, PartialEq, Eq, Structural)]
pub enum MerkleLookup {
    /// No block holds it.
    NotInBlock,
    /// It is at this position of its block.
    At(usize),
    /// The proof is not one of a single transaction.
    Malformed,
}

/// What a proof says of a transaction. A block other than the expected one means that the chain changed
/// under way.
pub open spec fn merkle_lookup(
    proven: Option<(Seq<u8>, Seq<u32>)>,
    expected_block_hash: Option<BlockHash>,
) -> Result<MerkleLookup, Error> {
    match proven {
        None => Ok::<MerkleLookup, Error>(MerkleLookup::NotInBlock),
        Some((hash, positions)) => if expected_block_hash matches Some(expected) && expected.0@
            != hash {
            Err::<MerkleLookup, Error>(Error::ChainAccessInconsistency)
        } else if positions.len() == 1 {
            Ok::<MerkleLookup, Error>(MerkleLookup::At(positions[0] as usize))
        } else {
            Ok::<MerkleLookup, Error>(MerkleLookup::Malformed)
        },
    }
}

/// What a proof says of a transaction.
pub fn after_merkle_block(
    proven: Option<MerkleProof>,
    expected_block_hash: Option<BlockHash>,
) -> (lookup: Result<MerkleLookup, Error>)
    ensures
        lookup == merkle_lookup(
            match proven {
                Some(proven) => Some((proven.block_hash.0@, proven.positions@)),
                None => None,
            },
            expected_block_hash,
        ),
{
    match proven {
        None => Ok(MerkleLookup::NotInBlock),
        Some(proven) => {
            match expected_block_hash {
                Some(expected) => {
                    if !bytes_eq(&expected.0, &proven.block_hash.0) {
                        assert(expected.0@ != proven.block_hash.0@) by {
                            if expected.0@ == proven.block_hash.0@ {
                                assert(expected.0 =~= proven.block_hash.0);
                            }
                        }
                        return Err(Error::ChainAccessInconsistency);
                    }
                },
                None => {},
            }
            if proven.positions.len() == 1 {
                Ok(MerkleLookup::At(proven.positions[0] as usize))
            } else {
                Ok(MerkleLookup::Malformed)
            }
        },
    }
}

/// What the merkle block that a server gives for a transaction says of it. Where it gives none the
/// transaction is in no block.
pub fn look_up_merkle_block(
    merkle_block: Option<&Vec<u8>>,
    expected_block_hash: Option<BlockHash>,
) -> (lookup: Result<MerkleLookup, Error>)
    ensures
        match merkle_block {
            None => lookup == Ok::<MerkleLookup, Error>(MerkleLookup::NotInBlock),
            Some(bytes) => match merkle_proof_of(bytes@) {
                Some(proven) => lookup == merkle_lookup(Some(proven), expected_block_hash),
                None => lookup == Ok::<MerkleLookup, Error>(MerkleLookup::Malformed),
            },
        },
{
    match merkle_block {
        None => Ok(MerkleLookup::NotInBlock),
        Some(bytes) => match read_merkle_block(bytes.as_slice()) {
            Some(proven) => after_merkle_block(Some(proven), expected_block_hash),
            None => Ok(MerkleLookup::Malformed),
        },
    }
}

/// What is known of a transaction that a block holds.
#[derive(Clone, Copy, Debug, PartialEq, Eq, Structural)]
pub enum TxLookup {
    NotConfirmed,
    /// At this height.
    Confirmed(u32),
    /// The height of the block must be asked for.
    AskBlockStatus,
}

/// What is known of a transaction that a block holds. Where the height is known it need not be asked
/// for.
pub fn after_tx(tx_found: bool, known_block_height: Option<u32>) -> (lookup: TxLookup)
    ensures
        lookup == (if !tx_found {
            TxLookup::NotConfirmed
        } else {
            match known_block_height {
                Some(height) => TxLookup::Confirmed(height),
                None => TxLookup::AskBlockStatus,
            }
        }),
{
    if !tx_found {
        return TxLookup::NotConfirmed;
    }
    match known_block_height {
        Some(height) => TxLookup::Confirmed(height),
        None => TxLookup::AskBlockStatus,
    }
}

/// The height of a block that held a transaction a moment ago. A block without one means that the chain
/// changed under way.
pub fn after_block_status(height: Option<u32>) -> (confirmed: Result<u32, Error>)
    ensures
        confirmed == (match height {
            Some(height) => Ok::<u32, Error>(height),
            None => Err::<u32, Error>(Error::ChainAccessInconsistency),
        }),
{
    match height {
        Some(height) => Ok(height),
        None => Err(Error::ChainAccessInconsistency),
    }
}

/// Where a transaction is that spends an output.
#[derive(Clone, Copy, Debug)]
pub struct SpendingTx {
    pub txid: Txid,
    pub block_hash: Option<BlockHash>,
    pub block_height: Option<u32>,
}

/// The transaction that is looked for because it spends an output: one that the server names together
/// with where it is.
pub fn spending_tx(
    txid: Option<Txid>,
    status: Option<(Option<BlockHash>, Option<u32>)>,
) -> (spending: Option<SpendingTx>)
    ensures
        spending == (match (txid, status) {
            (Some(txid), Some((block_hash, block_height))) => Some(
                SpendingTx { txid, block_hash, block_height },
            ),
            _ => None,
        }),
{
    match (txid, status) {
        (Some(txid), Some((block_hash, block_height))) => Some(
            SpendingTx { txid, block_hash, block_height },
        ),
        _ => None,
    }
}

/// A transaction, with its place in the chain.
#[derive(Debug)]
pub struct ConfirmedTx<T> {
    pub tx: T,
    pub block_height: u32,
    pub pos: usize,
}

/// The transactions that were found.
pub open spec fn found_txs<T>(found: Seq<Option<ConfirmedTx<T>>>) -> Seq<ConfirmedTx<T>>
    decreases found.len(),
{
    if found.len() == 0 {
        Seq::empty()
    } else {
        match found.last() {
            Some(tx) => found_txs(found.drop_last()).push(tx),
            None => found_txs(found.drop_last()),
        }
    }
}

/// What was looked for and not found.
pub open spec fn not_found<I: SetItem, T>(
    registered: Seq<I>,
    found: Seq<Option<ConfirmedTx<T>>>,
) -> Set<I::Model>
    decreases found.len(),
{
    if found.len() == 0 {
        Set::empty()
    } else {
        let front = not_found(registered, found.drop_last());
        if found.last() is None {
            front.insert(registered[found.len() - 1].model())
        } else {
            front
        }
    }
}

/// Parts what was looked for into the transactions that were found and what must not be forgotten yet.
pub fn part_confirmed<I: SetItem, T>(
    registered: &ItemSet<I>,
    found: Vec<Option<ConfirmedTx<T>>>,
) -> (parts: (Vec<ConfirmedTx<T>>, ItemSet<I>))
    requires
        found@.len() == registered.listed().len(),
    ensures
        parts.0@ == found_txs(found@),
        parts.1.contents() == not_found(registered.listed(), found@),
{
    let ghost all = found@;
    let n: usize = found.len();
    let mut rest = found;
    let mut confirmed: Vec<ConfirmedTx<T>> = Vec::new();
    let mut left: ItemSet<I> = ItemSet::new();
    let mut i: usize = 0;
    assert(all.subrange(0, 0) =~= Seq::empty());
    while rest.len() > 0
        invariant
            i <= n,
            n == all.len(),
            n == registered.listed().len(),
            rest@ == all.subrange(i as int, n as int),
            confirmed@ == found_txs(all.subrange(0, i as int)),
            left.contents() == not_found(registered.listed(), all.subrange(0, i as int)),
        decreases rest@.len(),
    {
        let next = rest.remove(0);
        let ghost now = all.subrange(0, i + 1);
        proof {
            assert(next == all[i as int]);
            assert(rest@ =~= all.subrange(i + 1, n as int));
            assert(now.drop_last() =~= all.subrange(0, i as int));
            assert(now.last() == next);
        }
        match next {
            Some(tx) => {
                confirmed.push(tx);
            },
            None => {
                left.insert(registered.item_at(i).copy_item());
            },
        }
        i += 1;
    }
    assert(all.subrange(0, i as int) =~= all);
    (confirmed, left)
}

/// Nothing that was registered is forgotten before it is found.
pub proof fn law_nothing_is_forgotten<I: SetItem, T>(
    registered: Seq<I>,
    found: Seq<Option<ConfirmedTx<T>>>,
    i: int,
)
    requires
        0 <= i < found.len() == registered.len(),
        found[i] is None,
    ensures
        not_found(registered, found).contains(registered[i].model()),
{
    lemma_not_forgotten(registered, found, i);
}

proof fn lemma_not_forgotten<I: SetItem, T>(
    registered: Seq<I>,
    found: Seq<Option<ConfirmedTx<T>>>,
    i: int,
)
    requires
        0 <= i < found.len() <= registered.len(),
        found[i] is None,
    ensures
        not_found(registered, found).contains(registered[i].model()),
    decreases found.len(),
{
    if i < found.len() - 1 {
        lemma_not_forgotten(registered, found.drop_last(), i);
    }
}

/// Whether a transaction is no later in the chain than another: by the height of its block first, then
/// by its position in it.
pub open spec fn no_later<T>(a: ConfirmedTx<T>, b: ConfirmedTx<T>) -> bool {
    a.block_height < b.block_height || (a.block_height == b.block_height && a.pos <= b.pos)
}

/// Whether transactions come in the order of the chain.
pub open spec fn in_chain_order<T>(txs: Seq<ConfirmedTx<T>>) -> bool {
    forall|i: int, j: int| 0 <= i <= j < txs.len() ==> no_later(#[trigger] txs[i], #[trigger] txs[j])
}

fn place_of<T>(sorted: &Vec<ConfirmedTx<T>>, tx: &ConfirmedTx<T>) -> (place: usize)
    requires
        in_chain_order(sorted@),
    ensures
        place <= sorted@.len(),
        forall|i: int| 0 <= i < place ==> no_later(#[trigger] sorted@[i], *tx),
        forall|i: int| place <= i < sorted@.len() ==> no_later(*tx, #[trigger] sorted@[i]),
{
    let mut i: usize = 0;
    while i < sorted.len()
        invariant
            i <= sorted@.len(),
            in_chain_order(sorted@),
            forall|j: int| 0 <= j < i ==> no_later(#[trigger] sorted@[j], *tx),
        decreases sorted@.len() - i,
    {
        let other = &sorted[i];
        if tx.block_height < other.block_height || (tx.block_height == other.block_height && tx.pos
            < other.pos) {
            assert forall|j: int| i <= j < sorted@.len() implies no_later(
                *tx,
                #[trigger] sorted@[j],
            ) by {
                assert(no_later(sorted@[i as int], sorted@[j]));
            }
            return i;
        }
        i += 1;
    }
    i
}

/// Sorts all confirmed transactions first by block height, then by in-block position.
pub fn sort_confirmed_txs<T>(confirmed_txs: Vec<ConfirmedTx<T>>) -> (sorted: Vec<ConfirmedTx<T>>)
    ensures
        in_chain_order(sorted@),
        sorted@.to_multiset() == confirmed_txs@.to_multiset(),
        sorted@.len() == confirmed_txs@.len(),
{
    broadcast use vstd::seq_lib::group_to_multiset_ensures;

    let ghost all = confirmed_txs@;
    let n: usize = confirmed_txs.len();
    let mut rest = confirmed_txs;
    let mut sorted: Vec<ConfirmedTx<T>> = Vec::new();
    let mut k: usize = 0;
    assert(all.subrange(0, 0) =~= sorted@);
    while rest.len() > 0
        invariant
            k <= n,
            n == all.len(),
            rest@ == all.subrange(k as int, n as int),
            sorted@.len() == k,
            in_chain_order(sorted@),
            sorted@.to_multiset() == all.subrange(0, k as int).to_multiset(),
        decreases rest@.len(),
    {
        broadcast use vstd::seq_lib::group_to_multiset_ensures;

        let tx = rest.remove(0);
        let place: usize = place_of(&sorted, &tx);
        let ghost before = sorted@;
        sorted.insert(place, tx);
        proof {
            let after = sorted@;
            assert(tx == all[k as int]);
            assert(rest@ =~= all.subrange(k + 1, n as int));
            assert(all.subrange(0, k + 1) =~= all.subrange(0, k as int).push(tx));
            assert(after == before.insert(place as int, tx));
            assert forall|i: int, j: int| 0 <= i <= j < after.len() implies no_later(
                #[trigger] after[i],
                #[trigger] after[j],
            ) by {
                let i0 = if i < place {
                    i
                } else {
                    i - 1
                };
                let j0 = if j < place {
                    j
                } else {
                    j - 1
                };
                if i == place && j == place {
                } else if i == place {
                    assert(after[j] == before[j0]);
                } else if j == place {
                    assert(after[i] == before[i0]);
                } else {
                    assert(after[i] == before[i0] && after[j] == before[j0]);
                    assert(no_later(before[i0], before[j0]));
                }
            }
        }
        k += 1;
    }
    assert(all.subrange(0, k as int) =~= all);
    sorted
}

/// Whether all inputs of a funding transaction spend witness outputs, going by whether each of them comes
/// with one. There must be no others.
pub fn spends_witness_outputs(have_witness_utxo: &Vec<bool>) -> (all: bool)
    ensures
        all == forall|i: int|
            0 <= i < have_witness_utxo@.len() ==> #[trigger] have_witness_utxo@[i],
{
    let mut i: usize = 0;
    while i < have_witness_utxo.len()
        invariant
            i <= have_witness_utxo@.len(),
            forall|j: int| 0 <= j < i ==> #[trigger] have_witness_utxo@[j],
        decreases have_witness_utxo@.len() - i,
    {
        if !have_witness_utxo[i] {
            return false;
        }
        i += 1;
    }
    true
}

/// What comes of signing a funding transaction: one that is not signed completely is of no use.
pub fn create_funding_transaction(signed: bool) -> (result: Result<(), Error>)
    ensures
        result == (if signed {
            Ok::<(), Error>(())
        } else {
            Err::<(), Error>(Error::FundingTxCreationFailed)
        }),
{
    if signed {
        Ok(())
    } else {
        Err(Error::FundingTxCreationFailed)
    }
}

/// How urgent a transaction is.
#[derive(Clone, Copy, Debug, PartialEq, Eq, Structural)]
pub enum ConfirmationTarget {
    Background,
    Normal,
    HighPriority,
}

/// The lowest fee rate that is relayed everywhere, in satoshis per 1000 weight units.
///
/// Reads `lightning::chain::chaininterface::FEERATE_FLOOR_SATS_PER_KW`, whose value its source gives.
#[verifier::external_body]
fn feerate_floor_sats_per_kw() -> (floor: u32)
    ensures
        floor == 253,
{
    lightning::chain::chaininterface::FEERATE_FLOOR_SATS_PER_KW
}

/// Within how many blocks a transaction should be confirmed.
pub fn num_blocks_from_conf_target(confirmation_target: ConfirmationTarget) -> (blocks: usize)
    ensures
        blocks == (match confirmation_target {
            ConfirmationTarget::Background => 12usize,
            ConfirmationTarget::Normal => 6usize,
            ConfirmationTarget::HighPriority => 3usize,
        }),
{
    match confirmation_target {
        ConfirmationTarget::Background => 12,
        ConfirmationTarget::Normal => 6,
        ConfirmationTarget::HighPriority => 3,
    }
}

/// The fee rate that is used where none can be estimated.
pub open spec fn fallback_fee(confirmation_target: ConfirmationTarget) -> u32 {
    match confirmation_target {
        ConfirmationTarget::Background => 253,
        ConfirmationTarget::Normal => 2000,
        ConfirmationTarget::HighPriority => 5000,
    }
}

/// The fee rate that is used where none can be estimated.
pub fn fallback_fee_from_conf_target(confirmation_target: ConfirmationTarget) -> (fee: u32)
    ensures
        fee == fallback_fee(confirmation_target),
{
    match confirmation_target {
        ConfirmationTarget::Background => feerate_floor_sats_per_kw(),
        ConfirmationTarget::Normal => 2000,
        ConfirmationTarget::HighPriority => 5000,
    }
}

/// The fee rate to use, given the fee for 1000 weight units that was estimated. It is never below what
/// is relayed everywhere.
pub fn get_est_sat_per_1000_weight(
    estimated_fee: Option<u64>,
    confirmation_target: ConfirmationTarget,
) -> (rate: u32)
    ensures
        rate == (match estimated_fee {
            None => fallback_fee(confirmation_target),
            Some(fee) => if (fee as u32) < 253 {
                253
            } else {
                fee as u32
            },
        }),
        rate >= 253,
{
    match estimated_fee {
        None => fallback_fee_from_conf_target(confirmation_target),
        Some(fee) => {
            let floor: u32 = feerate_floor_sats_per_kw();
            let rate: u32 = fee as u32;
            if rate < floor {
                floor
            } else {
                rate
            }
        },
    }
}

/// A step that succeeded goes on; one that found another chain restarts with the tip that is known; and every
/// other error is returned.
pub proof fn law_only_another_chain_restarts_a_sync(
    tip_hash: BlockHash,
    step: AccessStep,
    e: Error,
)
    ensures
        step_or_restart(Ok(()), tip_hash, step) == step,
        step_or_restart(Err(Error::ChainAccessInconsistency), tip_hash, step)
            == AccessStep::Restart(tip_hash),
        e != Error::ChainAccessInconsistency ==> step_or_restart(Err(e), tip_hash, step)
            == AccessStep::Return(Err(e)),
{
}

/// Something is queued exactly if a transaction or an output is.
pub proof fn law_queued_items_await_a_sync(
    access: LdkLiteChainAccess,
    txid: Txid,
    output: WatchedOutput,
)
    ensures
        access.queued_transactions.contents().contains(txid) ==> access.has_queued(),
        access.queued_outputs.contents().contains(output.model()) ==> access.has_queued(),
        access.has_queued() ==> (exists|t: Txid| access.queued_transactions.contents().contains(t))
            || (exists|o: (Option<BlockHash>, OutPoint, Seq<u8>)|
            access.queued_outputs.contents().contains(o)),
{
    if access.has_queued() {
        if !access.queued_transactions.contents().is_empty() {
            let t = choose|t: Txid| access.queued_transactions.contents().contains(t);
            assert(access.queued_transactions.contents().contains(t));
        } else {
            let o = choose|o: (Option<BlockHash>, OutPoint, Seq<u8>)|
                access.queued_outputs.contents().contains(o);
            assert(access.queued_outputs.contents().contains(o));
        }
    }
}

/// Outputs are told apart by their block, their outpoint and their script, byte for byte.
pub proof fn law_outputs_to_watch_are_told_apart(a: WatchedOutput, b: WatchedOutput)
    ensures
        a.model() == b.model() <==> a.block_hash == b.block_hash && a.outpoint == b.outpoint
            && a.script_pubkey@ == b.script_pubkey@,
{
}

/// A proof shows where in its block a transaction is, exactly if it is for that block, where one is expected,
/// and for one position. A proof for another block means another chain.
pub proof fn law_proofs_show_the_position(
    hash: Seq<u8>,
    positions: Seq<u32>,
    expected: BlockHash,
    any: Option<BlockHash>,
)
    ensures
        merkle_lookup(None, any) == Ok::<MerkleLookup, Error>(MerkleLookup::NotInBlock),
        expected.0@ != hash ==> merkle_lookup(Some((hash, positions)), Some(expected)) == Err::<
            MerkleLookup,
            Error,
        >(Error::ChainAccessInconsistency),
        (any matches Some(block) ==> block.0@ == hash) && positions.len() == 1 ==> merkle_lookup(
            Some((hash, positions)),
            any,
        ) == Ok::<MerkleLookup, Error>(MerkleLookup::At(positions[0] as usize)),
        (any matches Some(block) ==> block.0@ == hash) && positions.len() != 1 ==> merkle_lookup(
            Some((hash, positions)),
            any,
        ) == Ok::<MerkleLookup, Error>(MerkleLookup::Malformed),
{
}

/// What was found is taken in its order, and nothing else is.
pub proof fn law_what_was_found_is_confirmed<T>(
    found: Seq<Option<ConfirmedTx<T>>>,
    tx: ConfirmedTx<T>,
)
    ensures
        found_txs(found.push(Some(tx))) == found_txs(found).push(tx),
        found_txs(found.push(None)) == found_txs(found),
        found_txs(Seq::<Option<ConfirmedTx<T>>>::empty()).len() == 0,
{
    assert(found.push(Some(tx)).drop_last() =~= found);
    assert(found.push(None::<ConfirmedTx<T>>).drop_last() =~= found);
}

/// What is still watched was registered and not found.
pub proof fn law_only_what_was_not_found_is_watched<I: SetItem, T>(
    registered: Seq<I>,
    found: Seq<Option<ConfirmedTx<T>>>,
    item: I::Model,
)
    requires
        found.len() <= registered.len(),
        not_found(registered, found).contains(item),
    ensures
        exists|i: int|
            #![trigger registered[i]]
            0 <= i < found.len() && found[i] is None && registered[i].model() == item,
    decreases found.len(),
{
    if found.len() > 0 {
        let front = found.drop_last();
        let last = found.len() - 1;
        if not_found(registered, front).contains(item) {
            law_only_what_was_not_found_is_watched(registered, front, item);
            let i = choose|i: int|
                #![trigger registered[i]]
                0 <= i < front.len() && front[i] is None && registered[i].model() == item;
            assert(found[i] is None && registered[i].model() == item);
        } else {
            assert(found[last] is None && registered[last].model() == item);
        }
    }
}

/// Confirmed transactions are ordered by the heights of their blocks, and within a block by their positions.
pub proof fn law_transactions_are_ordered_by_block_and_position<T>(
    a: ConfirmedTx<T>,
    b: ConfirmedTx<T>,
    c: ConfirmedTx<T>,
    txs: Seq<ConfirmedTx<T>>,
    i: int,
    j: int,
)
    ensures
        a.block_height < b.block_height ==> no_later(a, b) && !no_later(b, a),
        a.block_height == b.block_height ==> (no_later(a, b) <==> a.pos <= b.pos),
        no_later(a, b) || no_later(b, a),
        no_later(a, b) && no_later(b, a) ==> a.block_height == b.block_height && a.pos == b.pos,
        no_later(a, b) && no_later(b, c) ==> no_later(a, c),
        in_chain_order(txs) && 0 <= i < j < txs.len() ==> txs[i].block_height <= txs[j].block_height
            && (txs[i].block_height == txs[j].block_height ==> txs[i].pos <= txs[j].pos),
{
    if in_chain_order(txs) && 0 <= i < j < txs.len() {
        assert(no_later(txs[i], txs[j]));
    }
}

/// The rates that are used without an estimate rise with the hurry, and the lowest of them is the floor.
pub proof fn law_fallback_fees_rise_with_the_hurry()
    ensures
        fallback_fee(ConfirmationTarget::Background) == 253,
        fallback_fee(ConfirmationTarget::Normal) == 2000,
        fallback_fee(ConfirmationTarget::HighPriority) == 5000,
{
}

/// A sync goes on with what is confirmed exactly if the tip is still the one that it synced to, and restarts
/// where it is another one.
pub proof fn law_a_sync_goes_on_under_its_tip(
    access: LdkLiteChainAccess,
    tip_hash: BlockHash,
    e: Error,
    step: AccessStep,
    failed: AccessStep,
)
    requires
        call_ensures(LdkLiteChainAccess::after_recheck, (&access, Ok(tip_hash)), step),
        call_ensures(LdkLiteChainAccess::after_recheck, (&access, Err(e)), failed),
    ensures
        step == AccessStep::SyncConfirmed <==> access.last_sync_hash == Some(tip_hash),
        access.last_sync_hash != Some(tip_hash) ==> step == AccessStep::Restart(tip_hash),
        failed == AccessStep::Return(Err(e)),
{
}

/// A block is the best one only while it is in the best chain, and a transaction is unconfirmed unless its
/// block is.
pub proof fn law_only_the_best_chain_counts(
    in_best_chain: bool,
    height: Option<u32>,
    update: Result<Option<u32>, Error>,
    block_hash: Option<BlockHash>,
    unconfirmed: bool,
)
    requires
        call_ensures(sync_best_block_updated, (in_best_chain, height), update),
        call_ensures(is_unconfirmed, (block_hash, in_best_chain), unconfirmed),
    ensures
        in_best_chain ==> update == Ok::<Option<u32>, Error>(height),
        !in_best_chain ==> update == Err::<Option<u32>, Error>(Error::ChainAccessInconsistency),
        unconfirmed <==> block_hash is None || !in_best_chain,
{
}

/// A transaction that was found is confirmed at the height that is known, or else at that of its block.
pub proof fn law_confirmed_transactions_have_a_height(
    found: bool,
    height: Option<u32>,
    lookup: TxLookup,
    confirmed: Result<u32, Error>,
)
    requires
        call_ensures(after_tx, (found, height), lookup),
        call_ensures(after_block_status, (height,), confirmed),
    ensures
        lookup is NotConfirmed <==> !found,
        found && height is None ==> lookup is AskBlockStatus,
        found && height is Some ==> lookup == TxLookup::Confirmed(height->0),
        height matches Some(h) ==> confirmed == Ok::<u32, Error>(h),
        height is None ==> confirmed == Err::<u32, Error>(Error::ChainAccessInconsistency),
{
}

/// Fewer blocks are allowed for in a hurry, and no rate is below the floor.
pub proof fn law_rates_have_a_floor(
    background: usize,
    normal: usize,
    high: usize,
    fee: u64,
    target: ConfirmationTarget,
    rate: u32,
    fallback: u32,
)
    requires
        call_ensures(num_blocks_from_conf_target, (ConfirmationTarget::Background,), background),
        call_ensures(num_blocks_from_conf_target, (ConfirmationTarget::Normal,), normal),
        call_ensures(num_blocks_from_conf_target, (ConfirmationTarget::HighPriority,), high),
        call_ensures(get_est_sat_per_1000_weight, (Some(fee), target), rate),
        call_ensures(get_est_sat_per_1000_weight, (None, target), fallback),
    ensures
        background == 12,
        normal == 6,
        high == 3,
        rate >= 253,
        253 <= fee <= u32::MAX ==> rate == fee,
        fee < 253 ==> rate == 253,
        fallback == fallback_fee(target),
{
}

/// Everything that is registered is queued, and everything that is queued is watched from the next round on.
/// A round has work to do exactly if something was queued or the tip is another one than before.
pub proof fn law_what_is_registered_is_watched(
    registering: &mut LdkLiteChainAccess,
    txid: Txid,
    access: &mut LdkLiteChainAccess,
    tip_hash: BlockHash,
    step: AccessStep,
    queued: Txid,
)
    requires
        call_ensures(LdkLiteChainAccess::register_tx, (registering, txid), ()),
        call_ensures(LdkLiteChainAccess::begin_round, (access, tip_hash), step),
    ensures
        final(registering).queued_transactions.contents().contains(txid),
        old(registering).queued_transactions.contents().contains(queued) ==> final(
            registering
        ).queued_transactions.contents().contains(queued),
        final(registering).watched_transactions == old(registering).watched_transactions,
        old(access).queued_transactions.contents().contains(queued) ==> final(
            access
        ).watched_transactions.contents().contains(queued),
        old(access).watched_transactions.contents().contains(queued) ==> final(
            access
        ).watched_transactions.contents().contains(queued),
        !final(access).has_queued(),
        old(access).last_sync_hash == Some(tip_hash) && !old(access).has_queued() ==> step
            == AccessStep::Return(Ok(())),
        old(access).last_sync_hash != Some(tip_hash) ==> step == (AccessStep::SyncUnconfirmed {
            new_tip: true,
        }),
        old(access).last_sync_hash == Some(tip_hash) && old(access).has_queued() ==> step
            == (AccessStep::SyncUnconfirmed { new_tip: false }),
{
}

/// The tip of a sync is noted once what is unconfirmed was synced, where it is a new one.
pub proof fn law_the_tip_of_a_sync_is_noted(
    access: &mut LdkLiteChainAccess,
    tip_hash: BlockHash,
    new_tip: bool,
    step: AccessStep,
    failing: &mut LdkLiteChainAccess,
    e: Error,
    failed: AccessStep,
)
    requires
        call_ensures(
            LdkLiteChainAccess::after_unconfirmed,
            (access, Ok(()), tip_hash, new_tip),
            step,
        ),
        call_ensures(
            LdkLiteChainAccess::after_unconfirmed,
            (failing, Err(e), tip_hash, new_tip),
            failed,
        ),
    ensures
        new_tip ==> step == AccessStep::UpdateBestBlock(tip_hash) && final(access).last_sync_hash
            == Some(tip_hash),
        !new_tip ==> step == AccessStep::GetConfirmed && *final(access) == *old(access),
        failed == AccessStep::Return(Err(e)),
        *final(failing) == *old(failing),
{
}

/// Confirmed transactions are handed out in the order of the chain, and none is lost or added.
pub proof fn law_confirmed_transactions_are_sorted(
    txs: Vec<ConfirmedTx<u64>>,
    sorted: Vec<ConfirmedTx<u64>>,
    i: int,
    j: int,
)
    requires
        call_ensures(sort_confirmed_txs::<u64>, (txs,), sorted),
        0 <= i < j < sorted@.len(),
    ensures
        sorted@[i].block_height <= sorted@[j].block_height,
        sorted@[i].block_height == sorted@[j].block_height ==> sorted@[i].pos <= sorted@[j].pos,
        sorted@.to_multiset() == txs@.to_multiset(),
{
    law_transactions_are_ordered_by_block_and_position(
        sorted@[i],
        sorted@[j],
        sorted@[j],
        sorted@,
        i,
        j,
    );
}

} // verus!
