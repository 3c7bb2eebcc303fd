use ldk_node::access::{
    after_best_block, after_block_status, after_confirmed, after_merkle_block, after_tx,
    create_funding_transaction, fallback_fee_from_conf_target, get_est_sat_per_1000_weight,
    is_unconfirmed, look_up_merkle_block, num_blocks_from_conf_target, part_confirmed,
    sort_confirmed_txs, spending_tx, spends_witness_outputs, sync_best_block_updated, AccessStep,
    ConfirmationTarget, ConfirmedTx, LdkLiteChainAccess, MerkleLookup, MerkleProof, TxLookup,
};
use ldk_node::chain::electrum::WatchedOutput;
use ldk_node::error::Error;
use ldk_node::item_set::ItemSet;
use ldk_node::types::{BlockHash, OutPoint, Txid};

fn hash(id: u8) -> BlockHash {
    BlockHash([id; 32])
}

fn txid(id: u8) -> Txid {
    Txid([id; 32])
}

fn output(id: u8) -> WatchedOutput {
    WatchedOutput {
        block_hash: None,
        outpoint: OutPoint { txid: txid(id), vout: 0 },
        script_pubkey: vec![id],
    }
}

#[test]
fn a_sync_goes_on_until_nothing_new_is_registered() {
    let mut access = LdkLiteChainAccess::new();
    access.register_tx(txid(1));
    access.register_tx(txid(1));
    access.register_output(output(2));
    let step = access.begin_round(hash(1));
    assert!(matches!(step, AccessStep::SyncUnconfirmed { new_tip: true }));
    assert_eq!((access.watched_transactions.len(), access.watched_outputs.len()), (1, 1));
    assert!(access.queued_transactions.is_empty() && access.queued_outputs.is_empty());

    let step = access.after_unconfirmed(Ok(()), hash(1), true);
    assert!(matches!(step, AccessStep::UpdateBestBlock(h) if h == hash(1)));
    assert_eq!(access.last_sync_hash, Some(hash(1)));
    assert!(matches!(after_best_block(Ok(()), hash(1)), AccessStep::GetConfirmed));
    assert!(matches!(after_confirmed(Ok(()), hash(1)), AccessStep::RecheckTip));
    assert!(matches!(access.after_recheck(Ok(hash(1))), AccessStep::SyncConfirmed));
    // What is registered in the meantime is looked for in another round.
    access.register_tx(txid(3));
    access.sync_confirmed_transactions(ItemSet::new(), ItemSet::new());
    assert!(access.watched_transactions.is_empty());
    let step = access.begin_round(hash(1));
    assert!(matches!(step, AccessStep::SyncUnconfirmed { new_tip: false }));
    let step = access.after_unconfirmed(Ok(()), hash(1), false);
    assert!(matches!(step, AccessStep::GetConfirmed));
    access.sync_confirmed_transactions(ItemSet::new(), ItemSet::new());
    assert!(matches!(access.begin_round(hash(1)), AccessStep::Return(Ok(()))));
    assert!(!access.process_queues());
}

#[test]
fn a_chain_that_changes_under_way_restarts_the_round() {
    let mut access = LdkLiteChainAccess::new();
    let inconsistent = Err(Error::ChainAccessInconsistency);
    assert!(
        matches!(after_best_block(inconsistent, hash(1)), AccessStep::Restart(h) if h == hash(1))
    );
    assert!(matches!(after_confirmed(inconsistent, hash(1)), AccessStep::Restart(_)));
    let failed = Err(Error::TxSyncFailed);
    assert!(
        matches!(after_confirmed(failed, hash(1)), AccessStep::Return(Err(Error::TxSyncFailed)))
    );
    assert!(matches!(
        access.after_unconfirmed(failed, hash(1), true),
        AccessStep::Return(Err(Error::TxSyncFailed))
    ));
    assert_eq!(access.last_sync_hash, None);
    assert!(matches!(access.after_recheck(Ok(hash(2))), AccessStep::Restart(_)));
    assert!(matches!(
        access.after_recheck(Err(Error::TxSyncFailed)),
        AccessStep::Return(Err(Error::TxSyncFailed))
    ));

    assert_eq!(sync_best_block_updated(true, Some(5)), Ok(Some(5)));
    assert_eq!(sync_best_block_updated(true, None), Ok(None));
    assert_eq!(sync_best_block_updated(false, Some(5)), Err(Error::ChainAccessInconsistency));
    assert!(is_unconfirmed(None, true) && is_unconfirmed(Some(hash(1)), false));
    assert!(!is_unconfirmed(Some(hash(1)), true));
}

#[test]
fn how_a_transaction_is_looked_up() {
    let inconsistent = Error::ChainAccessInconsistency;
    let proven = |positions: Vec<u32>| Some(MerkleProof { block_hash: hash(1), positions });
    assert_eq!(after_merkle_block(None, Some(hash(1))), Ok(MerkleLookup::NotInBlock));
    assert_eq!(after_merkle_block(proven(vec![7]), None), Ok(MerkleLookup::At(7)));
    assert_eq!(after_merkle_block(proven(vec![7]), Some(hash(1))), Ok(MerkleLookup::At(7)));
    assert_eq!(after_merkle_block(proven(vec![7]), Some(hash(2))), Err(inconsistent));
    assert_eq!(after_merkle_block(proven(vec![]), None), Ok(MerkleLookup::Malformed));
    assert_eq!(after_merkle_block(proven(vec![7, 8]), None), Ok(MerkleLookup::Malformed));
    assert_eq!(after_tx(false, Some(4)), TxLookup::NotConfirmed);
    assert_eq!(after_tx(true, Some(4)), TxLookup::Confirmed(4));
    assert_eq!(after_tx(true, None), TxLookup::AskBlockStatus);
    assert_eq!(after_block_status(Some(4)), Ok(4));
    assert_eq!(after_block_status(None), Err(inconsistent));
    let spending = spending_tx(Some(txid(1)), Some((Some(hash(2)), Some(3)))).unwrap();
    assert_eq!((spending.txid, spending.block_height), (txid(1), Some(3)));
    assert_eq!(spending.block_hash, Some(hash(2)));
    assert!(spending_tx(None, Some((None, None))).is_none());
    assert!(spending_tx(Some(txid(1)), None).is_none());
}

#[test]
fn merkle_blocks_prove_where_a_transaction_is() {
    let genesis = bitcoin::constants::genesis_block(bitcoin::Network::Bitcoin);
    let txid_of_genesis = genesis.txdata[0].compute_txid();
    let block = bitcoin::MerkleBlock::from_block_with_predicate(&genesis, |t| *t == txid_of_genesis);
    let bytes = bitcoin::consensus::serialize(&block);
    let block_hash = BlockHash(*AsRef::<[u8; 32]>::as_ref(&genesis.block_hash()));
    assert_eq!(look_up_merkle_block(Some(&bytes), None), Ok(MerkleLookup::At(0)));
    assert_eq!(look_up_merkle_block(Some(&bytes), Some(block_hash)), Ok(MerkleLookup::At(0)));
    assert_eq!(
        look_up_merkle_block(Some(&bytes), Some(hash(1))),
        Err(Error::ChainAccessInconsistency)
    );
    assert_eq!(look_up_merkle_block(None, Some(hash(1))), Ok(MerkleLookup::NotInBlock));
    assert_eq!(look_up_merkle_block(Some(&vec![1, 2]), None), Ok(MerkleLookup::Malformed));
    let nothing = bitcoin::MerkleBlock::from_block_with_predicate(&genesis, |_| false);
    let bytes = bitcoin::consensus::serialize(&nothing);
    assert_eq!(look_up_merkle_block(Some(&bytes), None), Ok(MerkleLookup::Malformed));
}

#[test]
fn nothing_is_forgotten_before_it_is_found() {
    let mut registered: ItemSet<Txid> = ItemSet::new();
    for id in 1..=3u8 {
        registered.insert(txid(id));
    }
    let found = ConfirmedTx { tx: "found", block_height: 9, pos: 1 };
    let (confirmed, left) = part_confirmed(&registered, vec![None, Some(found), None]);
    assert_eq!((confirmed.len(), confirmed[0].tx), (1, "found"));
    assert_eq!(left.len(), 2);
    assert!(left.contains(registered.item_at(0)) && left.contains(registered.item_at(2)));
    assert!(!left.contains(registered.item_at(1)));
}

#[test]
fn sets_keep_the_order_of_their_items() {
    let set = |ids: &[u8]| {
        let mut set: ItemSet<Txid> = ItemSet::new();
        for id in ids {
            set.insert(txid(*id));
        }
        set
    };
    let listed = |set: &ItemSet<Txid>| -> Vec<Txid> { (0..set.len()).map(|i| *set.item_at(i)).collect() };
    let mut watched = set(&[3, 1, 3, 2, 1]);
    assert_eq!(listed(&watched), vec![txid(3), txid(1), txid(2)]);
    let mut queued = set(&[5, 1, 4]);
    watched.take_all(&mut queued);
    assert_eq!(listed(&watched), vec![txid(3), txid(1), txid(2), txid(5), txid(4)]);
    assert!(queued.is_empty() && listed(&queued).is_empty());
}

#[test]
fn transactions_come_in_the_order_of_the_chain() {
    let tx = |tx: u8, block_height: u32, pos: usize| ConfirmedTx { tx, block_height, pos };
    let sorted =
        sort_confirmed_txs(vec![tx(1, 11, 0), tx(2, 10, 5), tx(3, 10, 2), tx(4, 9, 7)]);
    let order: Vec<u8> = sorted.iter().map(|t| t.tx).collect();
    assert_eq!(order, vec![4, 3, 2, 1]);
}

#[test]
fn fee_rates_are_never_below_the_floor() {
    assert_eq!(num_blocks_from_conf_target(ConfirmationTarget::Background), 12);
    assert_eq!(num_blocks_from_conf_target(ConfirmationTarget::Normal), 6);
    assert_eq!(num_blocks_from_conf_target(ConfirmationTarget::HighPriority), 3);
    assert_eq!(fallback_fee_from_conf_target(ConfirmationTarget::Background), 253);
    assert_eq!(fallback_fee_from_conf_target(ConfirmationTarget::Normal), 2000);
    assert_eq!(fallback_fee_from_conf_target(ConfirmationTarget::HighPriority), 5000);
    let normal = ConfirmationTarget::Normal;
    assert_eq!(get_est_sat_per_1000_weight(None, normal), 2000);
    assert_eq!(get_est_sat_per_1000_weight(Some(100), normal), 253);
    assert_eq!(get_est_sat_per_1000_weight(Some(1000), normal), 1000);
}

#[test]
fn unsigned_funding_transactions_are_refused() {
    assert_eq!(create_funding_transaction(true), Ok(()));
    assert_eq!(create_funding_transaction(false), Err(Error::FundingTxCreationFailed));
    assert!(spends_witness_outputs(&vec![true, true]) && spends_witness_outputs(&vec![]));
    assert!(!spends_witness_outputs(&vec![true, false]));
}
