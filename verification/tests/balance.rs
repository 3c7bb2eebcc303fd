use lightning::chain::channelmonitor as monitor;
use lightning_types::payment as ln_payment;

use ldk_node::balance::{
    balance_details_after_sync, value_from_descriptor, BalanceSource,
    HolderCommitmentTransactionBalance, LdkBalance, LightningBalance, OutputSpendStatus,
    PendingSweepBalance, SpendableOutputDescriptor, SweptOutput,
};
use ldk_node::payment::{PaymentHash, PaymentPreimage};
use ldk_node::transaction::Transaction;
use ldk_node::types::{BlockHash, ChannelId, PublicKey};

fn candidate(amount_satoshis: u64) -> HolderCommitmentTransactionBalance {
    HolderCommitmentTransactionBalance { amount_satoshis, transaction_fee_satoshis: 3 }
}

fn on_close(amounts: &[u64], confirmed: usize) -> LdkBalance {
    LdkBalance::ClaimableOnChannelClose {
        balance_candidates: amounts.iter().map(|a| candidate(*a)).collect(),
        confirmed_balance_candidate_index: confirmed,
        outbound_payment_htlc_rounded_msat: 1,
        outbound_forwarded_htlc_rounded_msat: 2,
        inbound_claiming_htlc_rounded_msat: 3,
        inbound_htlc_rounded_msat: 4,
    }
}

fn ldk_on_close(amounts: &[u64], confirmed: usize) -> monitor::Balance {
    monitor::Balance::ClaimableOnChannelClose {
        balance_candidates: amounts
            .iter()
            .map(|a| monitor::HolderCommitmentTransactionBalance {
                amount_satoshis: *a,
                transaction_fee_satoshis: 3,
            })
            .collect(),
        confirmed_balance_candidate_index: confirmed,
        outbound_payment_htlc_rounded_msat: 1,
        outbound_forwarded_htlc_rounded_msat: 2,
        inbound_claiming_htlc_rounded_msat: 3,
        inbound_htlc_rounded_msat: 4,
    }
}

fn timeout(amount_satoshis: u64, outbound_payment: bool) -> LdkBalance {
    LdkBalance::MaybeTimeoutClaimableHTLC {
        amount_satoshis,
        claimable_height: 9,
        payment_hash: PaymentHash([1; 32]),
        outbound_payment,
    }
}

fn preimage(amount_satoshis: u64) -> LdkBalance {
    LdkBalance::MaybePreimageClaimableHTLC {
        amount_satoshis,
        expiry_height: 9,
        payment_hash: PaymentHash([1; 32]),
    }
}

#[test]
fn amounts_are_those_of_the_channel_monitor() {
    for (amounts, confirmed) in
        [(vec![10, 20, 30], 0), (vec![10, 20, 30], 1), (vec![10], 0), (vec![], 0)]
    {
        assert_eq!(
            on_close(&amounts, confirmed).claimable_amount_satoshis(),
            ldk_on_close(&amounts, confirmed).claimable_amount_satoshis()
        );
    }
    for outbound_payment in [false, true] {
        let ldk = monitor::Balance::MaybeTimeoutClaimableHTLC {
            amount_satoshis: 7,
            claimable_height: 9,
            payment_hash: ln_payment::PaymentHash([1; 32]),
            outbound_payment,
        };
        assert_eq!(
            timeout(7, outbound_payment).claimable_amount_satoshis(),
            ldk.claimable_amount_satoshis()
        );
    }
    assert_eq!(timeout(7, false).claimable_amount_satoshis(), 7);
    assert_eq!(timeout(7, true).claimable_amount_satoshis(), 0);
    assert_eq!(preimage(7).claimable_amount_satoshis(), 0);
    assert_eq!(on_close(&[10, 20, 30], 1).claimable_amount_satoshis(), 20);
    assert_eq!(on_close(&[10, 20, 30], 0).claimable_amount_satoshis(), 30);
}

#[test]
fn balances_name_their_channel() {
    let channel_id = ChannelId([5; 32]);
    let key = PublicKey([2; 33]);
    match LightningBalance::from_ldk_balance(channel_id, key, on_close(&[10, 20, 30], 0)) {
        LightningBalance::ClaimableOnChannelClose {
            channel_id: id,
            counterparty_node_id,
            amount_satoshis,
            transaction_fee_satoshis,
            inbound_htlc_rounded_msat,
            ..
        } => {
            assert_eq!((id, counterparty_node_id.0), (channel_id, key.0));
            assert_eq!((amount_satoshis, transaction_fee_satoshis), (10, 3));
            assert_eq!(inbound_htlc_rounded_msat, 4);
        }
        other => panic!("{:?}", other),
    }
    let contentious = LdkBalance::ContentiousClaimable {
        amount_satoshis: 8,
        timeout_height: 80,
        payment_hash: PaymentHash([1; 32]),
        payment_preimage: PaymentPreimage([2; 32]),
    };
    match LightningBalance::from_ldk_balance(channel_id, key, contentious) {
        LightningBalance::ContentiousClaimable { timeout_height, payment_preimage, .. } => {
            assert_eq!((timeout_height, payment_preimage.0), (80, [2; 32]));
        }
        other => panic!("{:?}", other),
    }
    let awaiting = LdkBalance::ClaimableAwaitingConfirmations {
        amount_satoshis: 8,
        confirmation_height: 70,
        source: BalanceSource::CoopClose,
    };
    assert!(matches!(
        LightningBalance::from_ldk_balance(channel_id, key, awaiting),
        LightningBalance::ClaimableAwaitingConfirmations {
            amount_satoshis: 8,
            confirmation_height: 70,
            source: BalanceSource::CoopClose,
            ..
        }
    ));
    assert!(matches!(
        LightningBalance::from_ldk_balance(channel_id, key, timeout(7, true)),
        LightningBalance::MaybeTimeoutClaimableHTLC { outbound_payment: true, .. }
    ));
    assert!(matches!(
        LightningBalance::from_ldk_balance(channel_id, key, preimage(7)),
        LightningBalance::MaybePreimageClaimableHTLC { amount_satoshis: 7, expiry_height: 9, .. }
    ));
    let revoked = LdkBalance::CounterpartyRevokedOutputClaimable { amount_satoshis: 6 };
    assert!(matches!(
        LightningBalance::from_ldk_balance(channel_id, key, revoked),
        LightningBalance::CounterpartyRevokedOutputClaimable { amount_satoshis: 6, .. }
    ));
}

fn spending_tx() -> (Transaction, bitcoin::Txid) {
    let tx = bitcoin::Transaction {
        version: bitcoin::transaction::Version::TWO,
        lock_time: bitcoin::absolute::LockTime::ZERO,
        input: vec![bitcoin::TxIn::default()],
        output: vec![bitcoin::TxOut {
            value: bitcoin::Amount::from_sat(1),
            script_pubkey: bitcoin::ScriptBuf::new(),
        }],
    };
    let bytes = bitcoin::consensus::serialize(&tx);
    (Transaction::from_bytes(bytes).unwrap(), tx.compute_txid())
}

#[test]
fn swept_outputs_are_followed_to_their_confirmation() {
    let descriptor = SpendableOutputDescriptor::DelayedPaymentOutput { value_sats: 77 };
    assert_eq!(value_from_descriptor(&descriptor), 77);
    let output = |status: OutputSpendStatus| SweptOutput {
        descriptor,
        channel_id: Some(ChannelId([5; 32])),
        status,
    };
    let pending = OutputSpendStatus::PendingInitialBroadcast { delayed_until_height: None };
    assert!(matches!(
        PendingSweepBalance::from_swept_output(output(pending)),
        PendingSweepBalance::PendingBroadcast { amount_satoshis: 77, .. }
    ));
    let (tx, txid) = spending_tx();
    let txid: [u8; 32] = *AsRef::<[u8; 32]>::as_ref(&txid);
    let broadcast = OutputSpendStatus::PendingFirstConfirmation {
        first_broadcast_hash: BlockHash([1; 32]),
        latest_broadcast_height: 60,
        latest_spending_tx: tx.clone(),
    };
    match PendingSweepBalance::from_swept_output(output(broadcast)) {
        PendingSweepBalance::BroadcastAwaitingConfirmation {
            latest_broadcast_height,
            latest_spending_txid,
            amount_satoshis,
            ..
        } => {
            assert_eq!((latest_broadcast_height, amount_satoshis), (60, 77));
            assert_eq!(latest_spending_txid.0, txid);
        }
        other => panic!("{:?}", other),
    }
    let confirmed = OutputSpendStatus::PendingThresholdConfirmations {
        first_broadcast_hash: BlockHash([1; 32]),
        latest_broadcast_height: 60,
        latest_spending_tx: tx,
        confirmation_height: 61,
        confirmation_hash: BlockHash([3; 32]),
    };
    match PendingSweepBalance::from_swept_output(output(confirmed)) {
        PendingSweepBalance::AwaitingThresholdConfirmations {
            latest_spending_txid,
            confirmation_hash,
            confirmation_height,
            ..
        } => {
            assert_eq!((confirmation_hash, confirmation_height), (BlockHash([3; 32]), 61));
            assert_eq!(latest_spending_txid.0, txid);
        }
        other => panic!("{:?}", other),
    }
}

#[test]
fn uncertain_balances_add_nothing_to_the_total() {
    let certain = vec![on_close(&[10], 0), timeout(7, false)];
    let details = balance_details_after_sync(50, Some((40, 30)), &certain);
    assert_eq!(details.total_lightning_balance_sats, 17);
    assert_eq!(details.total_onchain_balance_sats, 40);
    assert_eq!(details.spendable_onchain_balance_sats, 30);
    // No more is reserved than there is.
    assert_eq!(details.total_anchor_channels_reserve_sats, 40);

    let uncertain = vec![preimage(7), timeout(7, true)];
    let details = balance_details_after_sync(50, None, &uncertain);
    assert_eq!(details.total_lightning_balance_sats, 0);
    assert_eq!(details.total_anchor_channels_reserve_sats, 0);
    let details = balance_details_after_sync(50, Some((90, 30)), &uncertain);
    assert_eq!(details.total_anchor_channels_reserve_sats, 50);
}
