//! What the node owns, on the chain and in its channels.
use crate::payment::{PaymentHash, PaymentPreimage};
use crate::transaction::Transaction;
use crate::types::{BlockHash, ChannelId, PublicKey, Txid};
use vstd::prelude::*;

verus! {

/// Where a balance that awaits confirmations comes from.
#[derive(Clone, Copy, Debug, PartialEq, Eq, Structural)]
pub enum BalanceSource {
    HolderForceClosed,
    CounterpartyForceClosed,
    CoopClose,
    Htlc,
}

/// The claimable balance of a commitment transaction that has yet to be broadcast.
#[derive(Clone, Copy, Debug, PartialEq, Eq, Structural)]
pub struct HolderCommitmentTransactionBalance {
    pub amount_satoshis: u64,
    pub transaction_fee_satoshis: u64,
}

/// A balance as a channel monitor reports it.
#[derive(Clone, Debug)]
pub enum LdkBalance {
    ClaimableOnChannelClose {
        /// The balances of the commitment transactions that may come to close the channel.
        balance_candidates: Vec<HolderCommitmentTransactionBalance>,
        /// The one among them whose funding is confirmed.
        confirmed_balance_candidate_index: usize,
        outbound_payment_htlc_rounded_msat: u64,
        outbound_forwarded_htlc_rounded_msat: u64,
        inbound_claiming_htlc_rounded_msat: u64,
        inbound_htlc_rounded_msat: u64,
    },
    ClaimableAwaitingConfirmations {
        amount_satoshis: u64,
        confirmation_height: u32,
        source: BalanceSource,
    },
    ContentiousClaimable {
        amount_satoshis: u64,
        timeout_height: u32,
        payment_hash: PaymentHash,
        payment_preimage: PaymentPreimage,
    },
    MaybeTimeoutClaimableHTLC {
        amount_satoshis: u64,
        claimable_height: u32,
        payment_hash: PaymentHash,
        outbound_payment: bool,
    },
    MaybePreimageClaimableHTLC {
        amount_satoshis: u64,
        expiry_height: u32,
        payment_hash: PaymentHash,
    },
    CounterpartyRevokedOutputClaimable { amount_satoshis: u64 },
}

impl LdkBalance {
    /// The confirmed candidate is one of the candidates.
    pub open spec fn well_formed(self) -> bool {
        self matches LdkBalance::ClaimableOnChannelClose {
            balance_candidates,
            confirmed_balance_candidate_index,
            ..
        } ==> confirmed_balance_candidate_index < balance_candidates@.len()
    }

    /// The confirmed candidate is one of the candidates, or the first one.
    pub open spec fn has_amount(self) -> bool {
        self matches LdkBalance::ClaimableOnChannelClose {
            balance_candidates,
            confirmed_balance_candidate_index,
            ..
        } ==> confirmed_balance_candidate_index == 0 || confirmed_balance_candidate_index
            < balance_candidates@.len()
    }

    /// The amount that counts as ours: that of the confirmed candidate, or of the last one where the
    /// confirmed one is the first; nothing without candidates, nor of what the counterparty may still
    /// claim.
    pub open spec fn claimable(self) -> u64 {
        match self {
            LdkBalance::ClaimableOnChannelClose {
                balance_candidates,
                confirmed_balance_candidate_index,
                ..
            } => if confirmed_balance_candidate_index != 0 {
                balance_candidates@[confirmed_balance_candidate_index as int].amount_satoshis
            } else if balance_candidates@.len() > 0 {
                balance_candidates@.last().amount_satoshis
            } else {
                0
            },
            LdkBalance::ClaimableAwaitingConfirmations { amount_satoshis, .. } => amount_satoshis,
            LdkBalance::ContentiousClaimable { amount_satoshis, .. } => amount_satoshis,
            LdkBalance::CounterpartyRevokedOutputClaimable { amount_satoshis } => amount_satoshis,
            LdkBalance::MaybeTimeoutClaimableHTLC { amount_satoshis, outbound_payment, .. } =>
                if outbound_payment {
                    0
                } else {
                    amount_satoshis
                },
            LdkBalance::MaybePreimageClaimableHTLC { .. } => 0,
        }
    }

    /// The amount that counts as ours.
    pub fn claimable_amount_satoshis(&self) -> (amount: u64)
        requires
            self.has_amount(),
        ensures
            amount == self.claimable(),
    {
        match self {
            LdkBalance::ClaimableOnChannelClose {
                balance_candidates,
                confirmed_balance_candidate_index,
                ..
            } => {
                if *confirmed_balance_candidate_index != 0 {
                    balance_candidates[*confirmed_balance_candidate_index].amount_satoshis
                } else if balance_candidates.len() > 0 {
                    balance_candidates[balance_candidates.len() - 1].amount_satoshis
                } else {
                    0
                }
            },
            LdkBalance::ClaimableAwaitingConfirmations { amount_satoshis, .. } => *amount_satoshis,
            LdkBalance::ContentiousClaimable { amount_satoshis, .. } => *amount_satoshis,
            LdkBalance::CounterpartyRevokedOutputClaimable { amount_satoshis } => *amount_satoshis,
            LdkBalance::MaybeTimeoutClaimableHTLC { amount_satoshis, outbound_payment, .. } => {
                if *outbound_payment {
                    0
                } else {
                    *amount_satoshis
                }
            },
            LdkBalance::MaybePreimageClaimableHTLC { .. } => 0,
        }
    }
}

/// Details of the known available balances.
#[derive(Clone, Debug)]
pub struct BalanceDetails {
    /// The total balance of our on-chain wallet.
    pub total_onchain_balance_sats: u64,
    /// The currently spendable balance of our on-chain wallet.
    pub spendable_onchain_balance_sats: u64,
    /// The share of our total balance that we retain as an emergency reserve to (hopefully) be able
    /// to spend the Anchor outputs when one of our channels is closed.
    pub total_anchor_channels_reserve_sats: u64,
    /// The total balance that we would be able to claim across all our Lightning channels.
    pub total_lightning_balance_sats: u64,
    /// A detailed list of all known Lightning balances that would be claimable on channel closure.
    pub lightning_balances: Vec<LightningBalance>,
    /// A detailed list of balances currently being swept from the Lightning to the on-chain wallet.
    pub pending_balances_from_channel_closures: Vec<PendingSweepBalance>,
}

/// Details about the status of a known Lightning balance.
#[derive(Clone, Copy, Debug)]
pub enum LightningBalance {
    /// The channel is not yet closed. The given balance is claimable (less on-chain fees) if the
    /// channel is force-closed now.
    ClaimableOnChannelClose {
        channel_id: ChannelId,
        counterparty_node_id: PublicKey,
        amount_satoshis: u64,
        transaction_fee_satoshis: u64,
        outbound_payment_htlc_rounded_msat: u64,
        outbound_forwarded_htlc_rounded_msat: u64,
        inbound_claiming_htlc_rounded_msat: u64,
        inbound_htlc_rounded_msat: u64,
    },
    /// The channel has been closed, and the given balance is ours but awaiting confirmations until
    /// we consider it spendable.
    ClaimableAwaitingConfirmations {
        channel_id: ChannelId,
        counterparty_node_id: PublicKey,
        amount_satoshis: u64,
        confirmation_height: u32,
        source: BalanceSource,
    },
    /// The channel has been closed, and the given balance should be ours but awaiting spending
    /// transaction confirmation.
    ContentiousClaimable {
        channel_id: ChannelId,
        counterparty_node_id: PublicKey,
        amount_satoshis: u64,
        timeout_height: u32,
        payment_hash: PaymentHash,
        payment_preimage: PaymentPreimage,
    },
    /// HTLCs which we sent to our counterparty which are claimable after a timeout (less on-chain
    /// fees) if the counterparty does not know the preimage for the HTLCs.
    MaybeTimeoutClaimableHTLC {
        channel_id: ChannelId,
        counterparty_node_id: PublicKey,
        amount_satoshis: u64,
        claimable_height: u32,
        payment_hash: PaymentHash,
        outbound_payment: bool,
    },
    /// HTLCs which we received from our counterparty which are claimable with a preimage which we do
    /// not currently have.
    MaybePreimageClaimableHTLC {
        channel_id: ChannelId,
        counterparty_node_id: PublicKey,
        amount_satoshis: u64,
        expiry_height: u32,
        payment_hash: PaymentHash,
    },
    /// The channel has been closed, and our counterparty broadcasted a revoked commitment
    /// transaction.
    CounterpartyRevokedOutputClaimable {
        channel_id: ChannelId,
        counterparty_node_id: PublicKey,
        amount_satoshis: u64,
    },
}

impl LightningBalance {
    /// The balance of a channel that a channel monitor's report stands for.
    pub open spec fn of(
        channel_id: ChannelId,
        counterparty_node_id: PublicKey,
        balance: LdkBalance,
    ) -> Self {
        match balance {
            LdkBalance::ClaimableOnChannelClose {
                balance_candidates,
                confirmed_balance_candidate_index,
                outbound_payment_htlc_rounded_msat,
                outbound_forwarded_htlc_rounded_msat,
                inbound_claiming_htlc_rounded_msat,
                inbound_htlc_rounded_msat,
            } => {
                let confirmed = balance_candidates@[confirmed_balance_candidate_index as int];
                LightningBalance::ClaimableOnChannelClose {
                    channel_id,
                    counterparty_node_id,
                    amount_satoshis: confirmed.amount_satoshis,
                    transaction_fee_satoshis: confirmed.transaction_fee_satoshis,
                    outbound_payment_htlc_rounded_msat,
                    outbound_forwarded_htlc_rounded_msat,
                    inbound_claiming_htlc_rounded_msat,
                    inbound_htlc_rounded_msat,
                }
            },
            LdkBalance::ClaimableAwaitingConfirmations {
                amount_satoshis,
                confirmation_height,
                source,
            } => LightningBalance::ClaimableAwaitingConfirmations {
                channel_id,
                counterparty_node_id,
                amount_satoshis,
                confirmation_height,
                source,
            },
            LdkBalance::ContentiousClaimable {
                amount_satoshis,
                timeout_height,
                payment_hash,
                payment_preimage,
            } => LightningBalance::ContentiousClaimable {
                channel_id,
                counterparty_node_id,
                amount_satoshis,
                timeout_height,
                payment_hash,
                payment_preimage,
            },
            LdkBalance::MaybeTimeoutClaimableHTLC {
                amount_satoshis,
                claimable_height,
                payment_hash,
                outbound_payment,
            } => LightningBalance::MaybeTimeoutClaimableHTLC {
                channel_id,
                counterparty_node_id,
                amount_satoshis,
                claimable_height,
                payment_hash,
                outbound_payment,
            },
            LdkBalance::MaybePreimageClaimableHTLC {
                amount_satoshis,
                expiry_height,
                payment_hash,
            } => LightningBalance::MaybePreimageClaimableHTLC {
                channel_id,
                counterparty_node_id,
                amount_satoshis,
                expiry_height,
                payment_hash,
            },
            LdkBalance::CounterpartyRevokedOutputClaimable { amount_satoshis } =>
                LightningBalance::CounterpartyRevokedOutputClaimable {
                channel_id,
                counterparty_node_id,
                amount_satoshis,
            },
        }
    }

    /// The balance of a channel that a channel monitor's report stands for.
    pub fn from_ldk_balance(
        channel_id: ChannelId,
        counterparty_node_id: PublicKey,
        balance: LdkBalance,
    ) -> (lightning_balance: Self)
        requires
            balance.well_formed(),
        ensures
            lightning_balance == LightningBalance::of(channel_id, counterparty_node_id, balance),
    {
        match balance {
            LdkBalance::ClaimableOnChannelClose {
                balance_candidates,
                confirmed_balance_candidate_index,
                outbound_payment_htlc_rounded_msat,
                outbound_forwarded_htlc_rounded_msat,
                inbound_claiming_htlc_rounded_msat,
                inbound_htlc_rounded_msat,
            } => {
                let confirmed = balance_candidates[confirmed_balance_candidate_index];
                LightningBalance::ClaimableOnChannelClose {
                    channel_id,
                    counterparty_node_id,
                    amount_satoshis: confirmed.amount_satoshis,
                    transaction_fee_satoshis: confirmed.transaction_fee_satoshis,
                    outbound_payment_htlc_rounded_msat,
                    outbound_forwarded_htlc_rounded_msat,
                    inbound_claiming_htlc_rounded_msat,
                    inbound_htlc_rounded_msat,
                }
            },
            LdkBalance::ClaimableAwaitingConfirmations {
                amount_satoshis,
                confirmation_height,
                source,
            } => LightningBalance::ClaimableAwaitingConfirmations {
                channel_id,
                counterparty_node_id,
                amount_satoshis,
                confirmation_height,
                source,
            },
            LdkBalance::ContentiousClaimable {
                amount_satoshis,
                timeout_height,
                payment_hash,
                payment_preimage,
            } => LightningBalance::ContentiousClaimable {
                channel_id,
                counterparty_node_id,
                amount_satoshis,
                timeout_height,
                payment_hash,
                payment_preimage,
            },
            LdkBalance::MaybeTimeoutClaimableHTLC {
                amount_satoshis,
                claimable_height,
                payment_hash,
                outbound_payment,
            } => LightningBalance::MaybeTimeoutClaimableHTLC {
                channel_id,
                counterparty_node_id,
                amount_satoshis,
                claimable_height,
                payment_hash,
                outbound_payment,
            },
            LdkBalance::MaybePreimageClaimableHTLC {
                amount_satoshis,
                expiry_height,
                payment_hash,
            } => LightningBalance::MaybePreimageClaimableHTLC {
                channel_id,
                counterparty_node_id,
                amount_satoshis,
                expiry_height,
                payment_hash,
            },
            LdkBalance::CounterpartyRevokedOutputClaimable { amount_satoshis } =>
                LightningBalance::CounterpartyRevokedOutputClaimable {
                channel_id,
                counterparty_node_id,
                amount_satoshis,
            },
        }
    }
}

/// The output of a closed channel that is swept to the on-chain wallet.
#[derive(Clone, Copy, Debug, PartialEq, Eq, Structural)]
pub enum SpendableOutputDescriptor {
    /// An output to a script that the wallet owns.
    StaticOutput { value_sats: u64 },
    /// An output that can be spent after a delay.
    DelayedPaymentOutput { value_sats: u64 },
    /// An output to a key of the channel.
    StaticPaymentOutput { value_sats: u64 },
}

impl SpendableOutputDescriptor {
    pub open spec fn value(self) -> u64 {
        match self {
            SpendableOutputDescriptor::StaticOutput { value_sats } => value_sats,
            SpendableOutputDescriptor::DelayedPaymentOutput { value_sats } => value_sats,
            SpendableOutputDescriptor::StaticPaymentOutput { value_sats } => value_sats,
        }
    }
}

/// How far the sweep of an output is.
#[derive(Clone, Debug)]
pub enum OutputSpendStatus {
    PendingInitialBroadcast { delayed_until_height: Option<u32> },
    PendingFirstConfirmation {
        first_broadcast_hash: BlockHash,
        latest_broadcast_height: u32,
        latest_spending_tx: Transaction,
    },
    PendingThresholdConfirmations {
        first_broadcast_hash: BlockHash,
        latest_broadcast_height: u32,
        latest_spending_tx: Transaction,
        confirmation_height: u32,
        confirmation_hash: BlockHash,
    },
}

/// An output of a closed channel, and how far its sweep is.
#[derive(Clone, Debug)]
pub struct SweptOutput {
    pub descriptor: SpendableOutputDescriptor,
    pub channel_id: Option<ChannelId>,
    pub status: OutputSpendStatus,
}

/// Details about the status of a known balance currently being swept to our on-chain wallet.
#[derive(Clone, Copy, Debug)]
pub enum PendingSweepBalance {
    /// The spendable output is about to be swept, but a spending transaction has yet to be generated
    /// and broadcast.
    PendingBroadcast { channel_id: Option<ChannelId>, amount_satoshis: u64 },
    /// A spending transaction has been generated and broadcast and is awaiting confirmation on-chain.
    BroadcastAwaitingConfirmation {
        channel_id: Option<ChannelId>,
        latest_broadcast_height: u32,
        latest_spending_txid: Txid,
        amount_satoshis: u64,
    },
    /// A spending transaction has been confirmed on-chain and is awaiting threshold confirmations.
    AwaitingThresholdConfirmations {
        channel_id: Option<ChannelId>,
        latest_spending_txid: Txid,
        confirmation_hash: BlockHash,
        confirmation_height: u32,
        amount_satoshis: u64,
    },
}

impl PendingSweepBalance {
    /// The balance of an output that is swept.
    pub open spec fn of(output: SweptOutput) -> Self {
        match output.status {
            OutputSpendStatus::PendingInitialBroadcast { .. } =>
                PendingSweepBalance::PendingBroadcast {
                channel_id: output.channel_id,
                amount_satoshis: output.descriptor.value(),
            },
            OutputSpendStatus::PendingFirstConfirmation {
                latest_broadcast_height,
                latest_spending_tx,
                ..
            } => PendingSweepBalance::BroadcastAwaitingConfirmation {
                channel_id: output.channel_id,
                latest_broadcast_height,
                latest_spending_txid: latest_spending_tx.spec_txid(),
                amount_satoshis: output.descriptor.value(),
            },
            OutputSpendStatus::PendingThresholdConfirmations {
                latest_spending_tx,
                confirmation_height,
                confirmation_hash,
                ..
            } => PendingSweepBalance::AwaitingThresholdConfirmations {
                channel_id: output.channel_id,
                latest_spending_txid: latest_spending_tx.spec_txid(),
                confirmation_hash,
                confirmation_height,
                amount_satoshis: output.descriptor.value(),
            },
        }
    }

    /// The balance of an output that is swept.
    pub fn from_swept_output(output: SweptOutput) -> (balance: Self)
        ensures
            balance == PendingSweepBalance::of(output),
    {
        let channel_id = output.channel_id;
        let amount_satoshis: u64 = value_from_descriptor(&output.descriptor);
        match output.status {
            OutputSpendStatus::PendingInitialBroadcast { .. } =>
                PendingSweepBalance::PendingBroadcast { channel_id, amount_satoshis },
            OutputSpendStatus::PendingFirstConfirmation {
                latest_broadcast_height,
                latest_spending_tx,
                ..
            } => PendingSweepBalance::BroadcastAwaitingConfirmation {
                channel_id,
                latest_broadcast_height,
                latest_spending_txid: latest_spending_tx.compute_txid(),
                amount_satoshis,
            },
            OutputSpendStatus::PendingThresholdConfirmations {
                latest_spending_tx,
                confirmation_height,
                confirmation_hash,
                ..
            } => PendingSweepBalance::AwaitingThresholdConfirmations {
                channel_id,
                latest_spending_txid: latest_spending_tx.compute_txid(),
                confirmation_hash,
                confirmation_height,
                amount_satoshis,
            },
        }
    }
}

/// The value of a swept output.
pub fn value_from_descriptor(descriptor: &SpendableOutputDescriptor) -> (value_sats: u64)
    ensures
        value_sats == descriptor.value(),
{
    match descriptor {
        SpendableOutputDescriptor::StaticOutput { value_sats } => *value_sats,
        SpendableOutputDescriptor::DelayedPaymentOutput { value_sats } => *value_sats,
        SpendableOutputDescriptor::StaticPaymentOutput { value_sats } => *value_sats,
    }
}

/// What a list of balances comes to.
pub open spec fn total_claimable(balances: Seq<LdkBalance>) -> int
    decreases balances.len(),
{
    if balances.len() == 0 {
        0
    } else {
        total_claimable(balances.drop_last()) + balances.last().claimable()
    }
}

/// A part of a list of balances comes to no more than the whole list.
proof fn lemma_total_grows(balances: Seq<LdkBalance>, n: int)
    requires
        0 <= n <= balances.len(),
    ensures
        0 <= total_claimable(balances.subrange(0, n)) <= total_claimable(balances),
    decreases balances.len(),
{
    if n == balances.len() {
        assert(balances.subrange(0, n) =~= balances);
        if n > 0 {
            lemma_total_grows(balances.drop_last(), n - 1);
            assert(balances.drop_last().subrange(0, n - 1) =~= balances.drop_last());
        }
    } else {
        assert(balances.drop_last().subrange(0, n) =~= balances.subrange(0, n));
        lemma_total_grows(balances.drop_last(), n);
    }
}

/// The balances that a sync of the on-chain wallet leaves the node with, as far as they are told.
/// Balances that the wallet cannot tell count as nothing, and no more is reserved than there is.
pub fn balance_details_after_sync(
    cur_anchor_reserve_sats: u64,
    onchain_balances: Option<(u64, u64)>,
    balances: &Vec<LdkBalance>,
) -> (details: BalanceDetails)
    requires
        forall|i: int| 0 <= i < balances@.len() ==> (#[trigger] balances@[i]).has_amount(),
        total_claimable(balances@) <= u64::MAX,
    ensures
        (details.total_onchain_balance_sats, details.spendable_onchain_balance_sats)
            == onchain_balances.unwrap_or((0u64, 0u64)),
        details.total_anchor_channels_reserve_sats == (if cur_anchor_reserve_sats
            <= details.total_onchain_balance_sats {
            cur_anchor_reserve_sats
        } else {
            details.total_onchain_balance_sats
        }),
        details.total_lightning_balance_sats == total_claimable(balances@),
        details.lightning_balances@.len() == 0,
        details.pending_balances_from_channel_closures@.len() == 0,
{
    let (total_onchain_balance_sats, spendable_onchain_balance_sats) = match onchain_balances {
        Some(balances) => balances,
        None => (0u64, 0u64),
    };
    let mut total_lightning_balance_sats: u64 = 0;
    let mut i: usize = 0;
    assert(balances@.subrange(0, 0) =~= Seq::empty());
    while i < balances.len()
        invariant
            i <= balances@.len(),
            forall|i: int| 0 <= i < balances@.len() ==> (#[trigger] balances@[i]).has_amount(),
            total_claimable(balances@) <= u64::MAX,
            total_lightning_balance_sats == total_claimable(balances@.subrange(0, i as int)),
        decreases balances@.len() - i,
    {
        proof {
            lemma_total_grows(balances@, i + 1);
            assert(balances@.subrange(0, i + 1).drop_last() =~= balances@.subrange(0, i as int));
        }
        total_lightning_balance_sats = total_lightning_balance_sats
            + balances[i].claimable_amount_satoshis();
        i += 1;
    }
    assert(balances@.subrange(0, i as int) =~= balances@);
    let total_anchor_channels_reserve_sats = if cur_anchor_reserve_sats
        <= total_onchain_balance_sats {
        cur_anchor_reserve_sats
    } else {
        total_onchain_balance_sats
    };
    BalanceDetails {
        total_onchain_balance_sats,
        spendable_onchain_balance_sats,
        total_anchor_channels_reserve_sats,
        total_lightning_balance_sats,
        lightning_balances: Vec::new(),
        pending_balances_from_channel_closures: Vec::new(),
    }
}

/// Balances that we are unsure to be able to claim, as we are waiting for a preimage or for a payment
/// of ours to time out, add nothing to the total.
pub proof fn law_uncertain_balances_are_left_out(balances: Seq<LdkBalance>)
    requires
        forall|i: int|
            0 <= i < balances.len() ==> (#[trigger] balances[i] is MaybePreimageClaimableHTLC || (
            balances[i] matches LdkBalance::MaybeTimeoutClaimableHTLC { outbound_payment, .. }
                && outbound_payment)),
    ensures
        total_claimable(balances) == 0,
    decreases balances.len(),
{
    if balances.len() > 0 {
        assert(balances.last() == balances[balances.len() - 1]);
        assert forall|i: int| 0 <= i < balances.drop_last().len() implies (
        #[trigger] balances.drop_last()[i] is MaybePreimageClaimableHTLC || (
        balances.drop_last()[i] matches LdkBalance::MaybeTimeoutClaimableHTLC {
            outbound_payment,
            ..
        } && outbound_payment)) by {
            assert(balances.drop_last()[i] == balances[i]);
        }
        law_uncertain_balances_are_left_out(balances.drop_last());
    }
}

/// What is certain counts in full: a balance that awaits confirmations, one that only a timeout of the
/// counterparty's could take, one of a revoked commitment, and one that was forwarded and comes back at
/// its timeout each raise the total by exactly their amount.
pub proof fn law_certain_balances_count_in_full(balances: Seq<LdkBalance>, balance: LdkBalance)
    ensures
        balance matches LdkBalance::ClaimableAwaitingConfirmations { amount_satoshis, .. }
            ==> total_claimable(balances.push(balance)) == total_claimable(balances)
            + amount_satoshis,
        balance matches LdkBalance::ContentiousClaimable { amount_satoshis, .. }
            ==> total_claimable(balances.push(balance)) == total_claimable(balances)
            + amount_satoshis,
        balance matches LdkBalance::CounterpartyRevokedOutputClaimable { amount_satoshis }
            ==> total_claimable(balances.push(balance)) == total_claimable(balances)
            + amount_satoshis,
        balance matches LdkBalance::MaybeTimeoutClaimableHTLC {
            amount_satoshis,
            outbound_payment: false,
            ..
        } ==> total_claimable(balances.push(balance)) == total_claimable(balances)
            + amount_satoshis,
{
    assert(balances.push(balance).drop_last() =~= balances);
}

/// What is uncertain leaves every total as it is: an outbound payment that may still succeed, and a
/// payment whose preimage is not known.
pub proof fn law_uncertain_balances_add_nothing(balances: Seq<LdkBalance>, balance: LdkBalance)
    requires
        balance is MaybePreimageClaimableHTLC || (balance matches
            LdkBalance::MaybeTimeoutClaimableHTLC { outbound_payment, .. } && outbound_payment),
    ensures
        total_claimable(balances.push(balance)) == total_claimable(balances),
{
    assert(balances.push(balance).drop_last() =~= balances);
}

/// An open channel raises the total by the amount of the commitment whose funding is confirmed. Where
/// that is the first one, the commitment of the latest funding counts; without any commitment there is
/// nothing to count.
pub proof fn law_open_channels_count_by_their_commitment(
    balances: Seq<LdkBalance>,
    balance: LdkBalance,
)
    ensures
        balance matches LdkBalance::ClaimableOnChannelClose {
            balance_candidates,
            confirmed_balance_candidate_index,
            ..
        } ==> {
            let added = total_claimable(balances.push(balance)) - total_claimable(balances);
            let n = balance_candidates@.len() as int;
            let k = confirmed_balance_candidate_index as int;
            &&& 0 < k < n ==> added == balance_candidates@[k].amount_satoshis
            &&& k == 0 && n > 0 ==> added == balance_candidates@[n - 1].amount_satoshis
            &&& k == 0 && n == 0 ==> added == 0
        },
{
    assert(balances.push(balance).drop_last() =~= balances);
}

/// The total of two lists together is the sum of their totals, and that of no balances is nothing, so
/// that neither the order of the balances nor how they are grouped matters.
pub proof fn law_totals_add_up(a: Seq<LdkBalance>, b: Seq<LdkBalance>)
    ensures
        total_claimable(a + b) == total_claimable(a) + total_claimable(b),
        total_claimable(b + a) == total_claimable(a + b),
        total_claimable(Seq::empty()) == 0,
{
    lemma_totals_add_up(a, b);
    lemma_totals_add_up(b, a);
}

proof fn lemma_totals_add_up(a: Seq<LdkBalance>, b: Seq<LdkBalance>)
    ensures
        total_claimable(a + b) == total_claimable(a) + total_claimable(b),
    decreases b.len(),
{
    if b.len() == 0 {
        assert(a + b =~= a);
    } else {
        lemma_totals_add_up(a, b.drop_last());
        assert((a + b).drop_last() =~= a + b.drop_last());
        assert((a + b).last() == b.last());
    }
}

impl LightningBalance {
    /// The channel that a balance is of.
    pub open spec fn channel(self) -> (ChannelId, PublicKey) {
        match self {
            LightningBalance::ClaimableOnChannelClose { channel_id, counterparty_node_id, .. } => (
                channel_id,
                counterparty_node_id,
            ),
            LightningBalance::ClaimableAwaitingConfirmations {
                channel_id,
                counterparty_node_id,
                ..
            } => (channel_id, counterparty_node_id),
            LightningBalance::ContentiousClaimable { channel_id, counterparty_node_id, .. } => (
                channel_id,
                counterparty_node_id,
            ),
            LightningBalance::MaybeTimeoutClaimableHTLC { channel_id, counterparty_node_id, .. } => (
                channel_id,
                counterparty_node_id,
            ),
            LightningBalance::MaybePreimageClaimableHTLC {
                channel_id,
                counterparty_node_id,
                ..
            } => (channel_id, counterparty_node_id),
            LightningBalance::CounterpartyRevokedOutputClaimable {
                channel_id,
                counterparty_node_id,
                ..
            } => (channel_id, counterparty_node_id),
        }
    }
}

/// The balance that is listed for a report is of the channel that was asked about, is of the kind of the
/// report, and carries everything that the report says: the report of an open channel says it of the
/// commitment whose funding is confirmed.
pub proof fn law_listed_balances_say_what_was_reported(
    channel_id: ChannelId,
    counterparty_node_id: PublicKey,
    report: LdkBalance,
)
    requires
        report.well_formed(),
    ensures
        ({
            let listed = LightningBalance::of(channel_id, counterparty_node_id, report);
            &&& listed.channel() == (channel_id, counterparty_node_id)
            &&& report matches LdkBalance::ClaimableOnChannelClose {
                balance_candidates,
                confirmed_balance_candidate_index,
                outbound_payment_htlc_rounded_msat: a,
                outbound_forwarded_htlc_rounded_msat: b,
                inbound_claiming_htlc_rounded_msat: c,
                inbound_htlc_rounded_msat: d,
            } ==> (listed matches LightningBalance::ClaimableOnChannelClose {
                amount_satoshis,
                transaction_fee_satoshis,
                outbound_payment_htlc_rounded_msat,
                outbound_forwarded_htlc_rounded_msat,
                inbound_claiming_htlc_rounded_msat,
                inbound_htlc_rounded_msat,
                ..
            } && amount_satoshis
                == balance_candidates@[confirmed_balance_candidate_index as int].amount_satoshis
                && transaction_fee_satoshis
                == balance_candidates@[confirmed_balance_candidate_index as int].transaction_fee_satoshis
                && outbound_payment_htlc_rounded_msat == a && outbound_forwarded_htlc_rounded_msat
                == b && inbound_claiming_htlc_rounded_msat == c && inbound_htlc_rounded_msat == d)
            &&& report matches LdkBalance::ClaimableAwaitingConfirmations {
                amount_satoshis: a,
                confirmation_height: b,
                source: c,
            } ==> (listed matches LightningBalance::ClaimableAwaitingConfirmations {
                amount_satoshis,
                confirmation_height,
                source,
                ..
            } && (amount_satoshis, confirmation_height, source) == (a, b, c))
            &&& report matches LdkBalance::ContentiousClaimable {
                amount_satoshis: a,
                timeout_height: b,
                payment_hash: c,
                payment_preimage: d,
            } ==> (listed matches LightningBalance::ContentiousClaimable {
                amount_satoshis,
                timeout_height,
                payment_hash,
                payment_preimage,
                ..
            } && (amount_satoshis, timeout_height, payment_hash, payment_preimage) == (a, b, c, d))
            &&& report matches LdkBalance::MaybeTimeoutClaimableHTLC {
                amount_satoshis: a,
                claimable_height: b,
                payment_hash: c,
                outbound_payment: d,
            } ==> (listed matches LightningBalance::MaybeTimeoutClaimableHTLC {
                amount_satoshis,
                claimable_height,
                payment_hash,
                outbound_payment,
                ..
            } && (amount_satoshis, claimable_height, payment_hash, outbound_payment) == (
                a,
                b,
                c,
                d,
            ))
            &&& report matches LdkBalance::MaybePreimageClaimableHTLC {
                amount_satoshis: a,
                expiry_height: b,
                payment_hash: c,
            } ==> (listed matches LightningBalance::MaybePreimageClaimableHTLC {
                amount_satoshis,
                expiry_height,
                payment_hash,
                ..
            } && (amount_satoshis, expiry_height, payment_hash) == (a, b, c))
            &&& report matches LdkBalance::CounterpartyRevokedOutputClaimable { amount_satoshis: a }
                ==> (listed matches LightningBalance::CounterpartyRevokedOutputClaimable {
                amount_satoshis,
                ..
            } && amount_satoshis == a)
        }),
{
}

/// A sweep is listed with the channel and the value of its output, whatever the output is and however far
/// the sweep has come: as about to be broadcast, as broadcast with the transaction and the height of its
/// latest broadcast, or as confirmed in the block that holds it.
pub proof fn law_sweeps_are_listed_with_their_value(
    channel_id: Option<ChannelId>,
    value_sats: u64,
    output: SweptOutput,
)
    requires
        output.channel_id == channel_id,
        output.descriptor == (SpendableOutputDescriptor::StaticOutput { value_sats })
            || output.descriptor == (SpendableOutputDescriptor::DelayedPaymentOutput { value_sats })
            || output.descriptor == (SpendableOutputDescriptor::StaticPaymentOutput { value_sats }),
    ensures
        output.descriptor.value() == value_sats,
        output.status is PendingInitialBroadcast ==> PendingSweepBalance::of(output) == (
        PendingSweepBalance::PendingBroadcast { channel_id, amount_satoshis: value_sats }),
        output.status matches OutputSpendStatus::PendingFirstConfirmation {
            latest_broadcast_height: height,
            latest_spending_tx: tx,
            ..
        } ==> (PendingSweepBalance::of(output) matches
            PendingSweepBalance::BroadcastAwaitingConfirmation {
            channel_id: c,
            latest_broadcast_height,
            latest_spending_txid,
            amount_satoshis,
        } && c == channel_id && latest_broadcast_height == height && latest_spending_txid
            == tx.spec_txid() && amount_satoshis == value_sats),
        output.status matches OutputSpendStatus::PendingThresholdConfirmations {
            latest_spending_tx: tx,
            confirmation_height: height,
            confirmation_hash: hash,
            ..
        } ==> (PendingSweepBalance::of(output) matches
            PendingSweepBalance::AwaitingThresholdConfirmations {
            channel_id: c,
            latest_spending_txid,
            confirmation_hash,
            confirmation_height,
            amount_satoshis,
        } && c == channel_id && latest_spending_txid == tx.spec_txid() && confirmation_hash == hash
            && confirmation_height == height && amount_satoshis == value_sats),
{
}

/// What is found claimable: the whole amount of what is ours, and nothing of what the counterparty may still
/// claim.
pub proof fn law_what_is_claimable(balance: LdkBalance, amount: u64)
    requires
        balance.has_amount(),
        call_ensures(LdkBalance::claimable_amount_satoshis, (&balance,), amount),
    ensures
        balance matches LdkBalance::ClaimableAwaitingConfirmations { amount_satoshis, .. } ==> amount
            == amount_satoshis,
        balance matches LdkBalance::ContentiousClaimable { amount_satoshis, .. } ==> amount
            == amount_satoshis,
        balance matches LdkBalance::CounterpartyRevokedOutputClaimable { amount_satoshis } ==> amount
            == amount_satoshis,
        balance matches LdkBalance::MaybeTimeoutClaimableHTLC {
            amount_satoshis,
            outbound_payment,
            ..
        } ==> amount == (if outbound_payment {
            0
        } else {
            amount_satoshis
        }),
        balance is MaybePreimageClaimableHTLC ==> amount == 0,
        balance matches LdkBalance::ClaimableOnChannelClose {
            balance_candidates,
            confirmed_balance_candidate_index,
            ..
        } ==> {
            let n = balance_candidates@.len() as int;
            let k = confirmed_balance_candidate_index as int;
            &&& k > 0 ==> amount == balance_candidates@[k].amount_satoshis
            &&& k == 0 && n > 0 ==> amount == balance_candidates@[n - 1].amount_satoshis
            &&& n == 0 ==> amount == 0
        },
{
    let none = Seq::<LdkBalance>::empty();
    law_certain_balances_count_in_full(none, balance);
    law_open_channels_count_by_their_commitment(none, balance);
    assert(none.push(balance).drop_last() =~= none);
    assert(total_claimable(none) == 0);
    assert(total_claimable(none.push(balance)) == balance.claimable());
    if balance is MaybePreimageClaimableHTLC || (balance matches
        LdkBalance::MaybeTimeoutClaimableHTLC { outbound_payment, .. } && outbound_payment) {
        law_uncertain_balances_add_nothing(none, balance);
    }
}

/// The balances after a sync: those of the wallet as they are known, or none; a reserve of no more than the
/// wallet holds; and the sum of what is claimable in the channels.
pub proof fn law_balances_after_a_sync(
    reserve: u64,
    total: u64,
    spendable: u64,
    balances: Vec<LdkBalance>,
    details: BalanceDetails,
    unknown: BalanceDetails,
)
    requires
        forall|i: int| 0 <= i < balances@.len() ==> (#[trigger] balances@[i]).has_amount(),
        total_claimable(balances@) <= u64::MAX,
        call_ensures(
            balance_details_after_sync,
            (reserve, Some((total, spendable)), &balances),
            details,
        ),
        call_ensures(balance_details_after_sync, (reserve, None, &balances), unknown),
    ensures
        details.total_onchain_balance_sats == total,
        details.spendable_onchain_balance_sats == spendable,
        reserve <= total ==> details.total_anchor_channels_reserve_sats == reserve,
        reserve > total ==> details.total_anchor_channels_reserve_sats == total,
        details.total_lightning_balance_sats == total_claimable(balances@),
        unknown.total_onchain_balance_sats == 0,
        unknown.spendable_onchain_balance_sats == 0,
        unknown.total_anchor_channels_reserve_sats == 0,
        unknown.total_lightning_balance_sats == details.total_lightning_balance_sats,
{
}

/// The value of an output is the one that it is described with, whatever kind of output it is, and a balance
/// that is listed or swept is the one that was reported.
pub proof fn law_outputs_have_their_value(
    descriptor: SpendableOutputDescriptor,
    value: u64,
    output: SweptOutput,
    swept: PendingSweepBalance,
)
    requires
        call_ensures(value_from_descriptor, (&descriptor,), value),
        call_ensures(PendingSweepBalance::from_swept_output, (output,), swept),
    ensures
        descriptor matches SpendableOutputDescriptor::StaticOutput { value_sats } ==> value
            == value_sats,
        descriptor matches SpendableOutputDescriptor::DelayedPaymentOutput { value_sats } ==> value
            == value_sats,
        descriptor matches SpendableOutputDescriptor::StaticPaymentOutput { value_sats } ==> value
            == value_sats,
        output.status is PendingInitialBroadcast <==> swept is PendingBroadcast,
        output.status is PendingFirstConfirmation <==> swept is BroadcastAwaitingConfirmation,
        output.status is PendingThresholdConfirmations <==> swept is AwaitingThresholdConfirmations,
{
}

/// Every report has an amount but that of an open channel whose confirmed candidate is none of its
/// candidates; the first one may be meant even where there are none.
pub proof fn law_which_reports_have_an_amount(balance: LdkBalance)
    ensures
        !(balance is ClaimableOnChannelClose) ==> balance.has_amount() && balance.well_formed(),
        balance matches LdkBalance::ClaimableOnChannelClose {
            balance_candidates,
            confirmed_balance_candidate_index,
            ..
        } ==> {
            &&& confirmed_balance_candidate_index == 0 ==> balance.has_amount()
            &&& confirmed_balance_candidate_index < balance_candidates@.len()
                ==> balance.has_amount() && balance.well_formed()
            &&& confirmed_balance_candidate_index >= balance_candidates@.len()
                ==> !balance.well_formed()
            &&& confirmed_balance_candidate_index > 0 && confirmed_balance_candidate_index
                >= balance_candidates@.len() ==> !balance.has_amount()
        },
{
}

} // verus!
