//! Payments and the records that pending ones are tracked by.
use crate::types::{ChannelId, OutPoint, PaymentId, PublicKey, Txid};
use vstd::prelude::*;

verus! {

/// The hash of a payment.
#[derive(Clone, Copy, Debug)]
pub struct PaymentHash(pub [u8; 32]);

/// The preimage of a payment's hash.
#[derive(Clone, Copy, Debug)]
pub struct PaymentPreimage(pub [u8; 32]);

/// The secret that a payment has to carry.
#[derive(Clone, Copy, Debug)]
pub struct PaymentSecret(pub [u8; 32]);

#[derive(Clone, Copy, Debug, PartialEq, Eq, Structural)]
pub enum PaymentDirection {
    Inbound,
    Outbound,
}

#[derive(Clone, Copy, Debug, PartialEq, Eq, Structural)]
pub enum PaymentStatus {
    Pending,
    Succeeded,
    Failed,
}

/// Whether an on-chain payment is part of the chain.
#[derive(Clone, Copy, Debug)]
pub enum ConfirmationStatus {
    Confirmed { block_hash: [u8; 32], height: u32, timestamp: u64 },
    Unconfirmed,
}

/// A channel of a counterparty.
#[derive(Clone, Copy, Debug)]
pub struct Channel {
    pub counterparty_node_id: PublicKey,
    pub channel_id: ChannelId,
}

/// What an on-chain transaction is for.
#[derive(Clone, Debug)]
pub enum TransactionType {
    /// The funding of channels that was negotiated with their counterparties.
    InteractiveFunding { channels: Vec<Channel> },
    /// Anything else.
    Other,
}

#[derive(Clone, Debug)]
pub enum PaymentKind {
    Onchain { txid: Txid, status: ConfirmationStatus, tx_type: Option<TransactionType> },
    Bolt11 {
        hash: PaymentHash,
        preimage: Option<PaymentPreimage>,
        secret: Option<PaymentSecret>,
        counterparty_skimmed_fee_msat: Option<u64>,
    },
}

/// A payment.
#[derive(Clone, Debug)]
pub struct PaymentDetails {
    pub id: PaymentId,
    pub kind: PaymentKind,
    pub amount_msat: Option<u64>,
    pub fee_paid_msat: Option<u64>,
    pub direction: PaymentDirection,
    pub status: PaymentStatus,
}

impl PaymentDetails {
    pub fn new(
        id: PaymentId,
        kind: PaymentKind,
        amount_msat: Option<u64>,
        fee_paid_msat: Option<u64>,
        direction: PaymentDirection,
        status: PaymentStatus,
    ) -> (details: Self)
        ensures
            details == (PaymentDetails {
                id,
                kind,
                amount_msat,
                fee_paid_msat,
                direction,
                status,
            }),
    {
        PaymentDetails { id, kind, amount_msat, fee_paid_msat, direction, status }
    }
}

/// A change of a payment. What is `None` stays as it is.
#[derive(Clone, Debug)]
pub struct PaymentDetailsUpdate {
    pub id: PaymentId,
    pub hash: Option<Option<PaymentHash>>,
    pub preimage: Option<Option<PaymentPreimage>>,
    pub secret: Option<Option<PaymentSecret>>,
    pub amount_msat: Option<Option<u64>>,
    pub fee_paid_msat: Option<Option<u64>>,
    pub status: Option<PaymentStatus>,
}

impl PaymentDetailsUpdate {
    /// An update that changes nothing.
    pub fn new(id: PaymentId) -> (update: Self)
        ensures
            update == (PaymentDetailsUpdate {
                id,
                hash: None,
                preimage: None,
                secret: None,
                amount_msat: None,
                fee_paid_msat: None,
                status: None,
            }),
    {
        PaymentDetailsUpdate {
            id,
            hash: None,
            preimage: None,
            secret: None,
            amount_msat: None,
            fee_paid_msat: None,
            status: None,
        }
    }
}

/// A transaction that may come to fund a channel.
#[derive(Clone, Copy, Debug)]
pub struct FundingTxCandidate {
    pub txid: Txid,
    pub amount_msat: Option<u64>,
    pub fee_paid_msat: Option<u64>,
    pub awaiting_broadcast: bool,
}

/// An output of a transaction.
#[derive(Debug)]
pub struct TxOut {
    pub value_sats: u64,
    pub script_pubkey: Vec<u8>,
}

/// What an output pays, and to whom.
pub struct TxOutView {
    pub value_sats: u64,
    pub script_pubkey: Seq<u8>,
}

impl View for TxOut {
    type V = TxOutView;

    open spec fn view(&self) -> TxOutView {
        TxOutView { value_sats: self.value_sats, script_pubkey: self.script_pubkey@ }
    }
}

impl Clone for TxOut {
    fn clone(&self) -> (copy: Self)
        ensures
            copy@ == self@,
    {
        let mut script_pubkey: Vec<u8> = Vec::new();
        let mut i: usize = 0;
        while i < self.script_pubkey.len()
            invariant
                i <= self.script_pubkey@.len(),
                script_pubkey@ == self.script_pubkey@.subrange(0, i as int),
            decreases self.script_pubkey@.len() - i,
        {
            script_pubkey.push(self.script_pubkey[i]);
            i += 1;
            assert(script_pubkey@ =~= self.script_pubkey@.subrange(0, i as int));
        }
        assert(self.script_pubkey@.subrange(0, i as int) =~= self.script_pubkey@);
        TxOut { value_sats: self.value_sats, script_pubkey }
    }
}

impl TxOut {
    /// Whether two outputs pay the same to the same script.
    pub fn same(&self, other: &Self) -> (same: bool)
        ensures
            same == (self@ == other@),
    {
        self.value_sats == other.value_sats && crate::types::slices_eq(
            self.script_pubkey.as_slice(),
            other.script_pubkey.as_slice(),
        )
    }
}

/// The outputs of a list.
pub open spec fn outputs_view(outputs: Seq<TxOut>) -> Seq<TxOutView> {
    outputs.map_values(|o: TxOut| o@)
}

/// Whether two lists hold the same outputs.
pub fn outputs_eq(a: &Vec<TxOut>, b: &Vec<TxOut>) -> (same: bool)
    ensures
        same == (outputs_view(a@) == outputs_view(b@)),
{
    if a.len() != b.len() {
        assert(outputs_view(a@).len() != outputs_view(b@).len());
        return false;
    }
    let mut i: usize = 0;
    while i < a.len()
        invariant
            i <= a@.len(),
            a@.len() == b@.len(),
            forall|j: int| 0 <= j < i ==> a@[j]@ == b@[j]@,
        decreases a@.len() - i,
    {
        if !a[i].same(&b[i]) {
            assert(outputs_view(a@)[i as int] != outputs_view(b@)[i as int]);
            return false;
        }
        i += 1;
    }
    assert(outputs_view(a@) =~= outputs_view(b@));
    true
}

/// A second copy of a list of outputs.
pub fn copy_outputs(outputs: &Vec<TxOut>) -> (copy: Vec<TxOut>)
    ensures
        outputs_view(copy@) == outputs_view(outputs@),
{
    let mut copy: Vec<TxOut> = Vec::new();
    let mut i: usize = 0;
    while i < outputs.len()
        invariant
            i <= outputs@.len(),
            copy@.len() == i,
            forall|j: int| 0 <= j < i ==> copy@[j]@ == outputs@[j]@,
        decreases outputs@.len() - i,
    {
        copy.push(outputs[i].clone());
        i += 1;
    }
    assert(outputs_view(copy@) =~= outputs_view(outputs@));
    copy
}

/// What this node puts into a funding transaction.
#[derive(Debug)]
pub struct FundingContribution {
    /// The wallet outputs it spends.
    pub inputs: Vec<OutPoint>,
    /// The outputs it pays, its change aside.
    pub outputs: Vec<TxOut>,
    /// The change it keeps.
    pub change_output: Option<TxOut>,
    pub estimated_fee_sats: u64,
    pub feerate_sat_per_kwu: u64,
}

/// What a contribution moves, and at which fee.
pub struct ContributionView {
    pub inputs: Seq<OutPoint>,
    pub outputs: Seq<TxOutView>,
    pub change_output: Option<TxOutView>,
    pub estimated_fee_sats: u64,
    pub feerate_sat_per_kwu: u64,
}

impl View for FundingContribution {
    type V = ContributionView;

    open spec fn view(&self) -> ContributionView {
        ContributionView {
            inputs: self.inputs@,
            outputs: outputs_view(self.outputs@),
            change_output: match self.change_output {
                Some(change) => Some(change@),
                None => None,
            },
            estimated_fee_sats: self.estimated_fee_sats,
            feerate_sat_per_kwu: self.feerate_sat_per_kwu,
        }
    }
}

impl Clone for FundingContribution {
    fn clone(&self) -> (copy: Self)
        ensures
            copy@ == self@,
    {
        let change_output = match &self.change_output {
            Some(change) => Some(change.clone()),
            None => None,
        };
        let mut inputs: Vec<OutPoint> = Vec::new();
        let mut i: usize = 0;
        while i < self.inputs.len()
            invariant
                i <= self.inputs@.len(),
                inputs@ == self.inputs@.subrange(0, i as int),
            decreases self.inputs@.len() - i,
        {
            inputs.push(self.inputs[i]);
            i += 1;
            assert(inputs@ =~= self.inputs@.subrange(0, i as int));
        }
        assert(self.inputs@.subrange(0, i as int) =~= self.inputs@);
        FundingContribution {
            inputs,
            outputs: copy_outputs(&self.outputs),
            change_output,
            estimated_fee_sats: self.estimated_fee_sats,
            feerate_sat_per_kwu: self.feerate_sat_per_kwu,
        }
    }
}

/// Whether two lists hold the same outpoints.
pub fn outpoints_eq(a: &Vec<OutPoint>, b: &Vec<OutPoint>) -> (same: bool)
    ensures
        same == (a@ == b@),
{
    if a.len() != b.len() {
        return false;
    }
    let mut i: usize = 0;
    while i < a.len()
        invariant
            i <= a@.len(),
            a@.len() == b@.len(),
            forall|j: int| 0 <= j < i ==> a@[j] == b@[j],
        decreases a@.len() - i,
    {
        if a[i] != b[i] {
            return false;
        }
        i += 1;
    }
    assert(a@ =~= b@);
    true
}

impl FundingContribution {
    /// Whether two contributions agree in everything.
    pub fn same(&self, other: &Self) -> (same: bool)
        ensures
            same == (self@ == other@),
    {
        let same_change = match (&self.change_output, &other.change_output) {
            (Some(a), Some(b)) => a.same(b),
            (None, None) => true,
            _ => false,
        };
        same_change && outpoints_eq(&self.inputs, &other.inputs) && outputs_eq(
            &self.outputs,
            &other.outputs,
        ) && self.estimated_fee_sats == other.estimated_fee_sats && self.feerate_sat_per_kwu
            == other.feerate_sat_per_kwu
    }
}

/// An outpoint as the channel state names it.
#[derive(Clone, Copy, Debug)]
pub struct LdkOutPoint {
    pub txid: Txid,
    pub index: u16,
}

impl LdkOutPoint {
    pub open spec fn as_outpoint(self) -> OutPoint {
        OutPoint { txid: self.txid, vout: self.index as u32 }
    }

    pub fn into_bitcoin_outpoint(self) -> (outpoint: OutPoint)
        ensures
            outpoint == self.as_outpoint(),
    {
        OutPoint { txid: self.txid, vout: self.index as u32 }
    }

    /// Whether two outpoints are the same.
    pub fn same(&self, other: &Self) -> (same: bool)
        ensures
            same == (*self == *other),
    {
        self.txid == other.txid && self.index == other.index
    }
}

/// The call that a splice goes back to.
#[derive(Debug)]
pub enum SpliceKind {
    /// Funds were moved into the channel.
    In { amount_sats: u64 },
    /// Funds were moved out of the channel.
    Out { outputs: Vec<TxOut> },
    /// The fee of a pending splice was raised.
    Rbf {  },
}

/// What a splice was asked to do.
pub enum SpliceKindView {
    In(u64),
    Out(Seq<TxOutView>),
    Rbf,
}

impl View for SpliceKind {
    type V = SpliceKindView;

    open spec fn view(&self) -> SpliceKindView {
        match self {
            SpliceKind::In { amount_sats } => SpliceKindView::In(*amount_sats),
            SpliceKind::Out { outputs } => SpliceKindView::Out(outputs_view(outputs@)),
            SpliceKind::Rbf {  } => SpliceKindView::Rbf,
        }
    }
}

impl Clone for SpliceKind {
    fn clone(&self) -> (copy: Self)
        ensures
            copy@ == self@,
    {
        match self {
            SpliceKind::In { amount_sats } => SpliceKind::In { amount_sats: *amount_sats },
            SpliceKind::Out { outputs } => SpliceKind::Out { outputs: copy_outputs(outputs) },
            SpliceKind::Rbf {  } => SpliceKind::Rbf {  },
        }
    }
}

impl SpliceKind {
    /// Whether two kinds agree, parameters and all.
    pub fn same(&self, other: &Self) -> (same: bool)
        ensures
            same == (self@ == other@),
    {
        match (self, other) {
            (SpliceKind::In { amount_sats: a }, SpliceKind::In { amount_sats: b }) => *a == *b,
            (SpliceKind::Out { outputs: a }, SpliceKind::Out { outputs: b }) => outputs_eq(a, b),
            (SpliceKind::Rbf {  }, SpliceKind::Rbf {  }) => true,
            _ => false,
        }
    }
}

/// The record of a splice that this node asked for.
#[derive(Debug)]
pub struct SpliceIntent {
    pub counterparty_node_id: PublicKey,
    pub channel_id: ChannelId,
    /// The funding that the splice builds on.
    pub pre_splice_funding_txo: LdkOutPoint,
    pub contribution: FundingContribution,
    pub kind: SpliceKind,
}

/// What a splice intent says.
pub struct IntentView {
    pub counterparty_node_id: PublicKey,
    pub channel_id: ChannelId,
    pub pre_splice_funding_txo: LdkOutPoint,
    pub contribution: ContributionView,
    pub kind: SpliceKindView,
}

impl View for SpliceIntent {
    type V = IntentView;

    open spec fn view(&self) -> IntentView {
        IntentView {
            counterparty_node_id: self.counterparty_node_id,
            channel_id: self.channel_id,
            pre_splice_funding_txo: self.pre_splice_funding_txo,
            contribution: self.contribution@,
            kind: self.kind@,
        }
    }
}

impl Clone for SpliceIntent {
    fn clone(&self) -> (copy: Self)
        ensures
            copy@ == self@,
    {
        SpliceIntent {
            counterparty_node_id: self.counterparty_node_id,
            channel_id: self.channel_id,
            pre_splice_funding_txo: self.pre_splice_funding_txo,
            contribution: self.contribution.clone(),
            kind: self.kind.clone(),
        }
    }
}

impl SpliceIntent {
    /// Whether two intents agree in everything.
    pub fn same(&self, other: &Self) -> (same: bool)
        ensures
            same == (self@ == other@),
    {
        self.counterparty_node_id == other.counterparty_node_id && self.channel_id
            == other.channel_id && self.pre_splice_funding_txo.same(&other.pre_splice_funding_txo)
            && self.contribution.same(&other.contribution) && self.kind.same(&other.kind)
    }
}

/// What an optional intent says.
pub open spec fn intent_view(intent: Option<SpliceIntent>) -> Option<IntentView> {
    match intent {
        Some(i) => Some(i@),
        None => None,
    }
}

/// The record of a pending payment.
#[derive(Debug)]
pub enum PendingPaymentDetails {
    /// A splice of which nothing but the intent is known: a bare intent.
    PendingSplice { id: PaymentId, bare_intent: SpliceIntent },
    /// A payment that is being followed until it is final.
    Followed {
        details: PaymentDetails,
        conflicting_txids: Vec<Txid>,
        candidates: Vec<FundingTxCandidate>,
        splice_intent: Option<SpliceIntent>,
    },
}

impl PendingPaymentDetails {
    pub open spec fn spec_id(self) -> PaymentId {
        match self {
            PendingPaymentDetails::PendingSplice { id, .. } => id,
            PendingPaymentDetails::Followed { details, .. } => details.id,
        }
    }

    /// Whether the two records differ in nothing but their intents.
    pub open spec fn same_but_for_intent(self, other: PendingPaymentDetails) -> bool {
        match (self, other) {
            (
                PendingPaymentDetails::PendingSplice { id: a, .. },
                PendingPaymentDetails::PendingSplice { id: b, .. },
            ) => a == b,
            (
                PendingPaymentDetails::Followed {
                    details: a,
                    conflicting_txids: b,
                    candidates: c,
                    ..
                },
                PendingPaymentDetails::Followed {
                    details: d,
                    conflicting_txids: e,
                    candidates: f,
                    ..
                },
            ) => a == d && b == e && c == f,
            _ => false,
        }
    }

    /// The intent that the record carries.
    pub open spec fn intent(self) -> Option<IntentView> {
        match self {
            PendingPaymentDetails::PendingSplice { bare_intent, .. } => Some(bare_intent@),
            PendingPaymentDetails::Followed { splice_intent, .. } => intent_view(splice_intent),
        }
    }

    /// The funding transactions that the record knows of.
    pub open spec fn spec_candidates(self) -> Seq<FundingTxCandidate> {
        match self {
            PendingPaymentDetails::PendingSplice { .. } => Seq::empty(),
            PendingPaymentDetails::Followed { candidates, .. } => candidates@,
        }
    }

    /// A bare intent.
    pub fn pending_splice(id: PaymentId, bare_intent: SpliceIntent) -> (record: Self)
        ensures
            record == (PendingPaymentDetails::PendingSplice { id, bare_intent }),
    {
        PendingPaymentDetails::PendingSplice { id, bare_intent }
    }

    pub fn followed(
        details: PaymentDetails,
        conflicting_txids: Vec<Txid>,
        candidates: Vec<FundingTxCandidate>,
        splice_intent: Option<SpliceIntent>,
    ) -> (record: Self)
        ensures
            record == (PendingPaymentDetails::Followed {
                details,
                conflicting_txids,
                candidates,
                splice_intent,
            }),
    {
        PendingPaymentDetails::Followed { details, conflicting_txids, candidates, splice_intent }
    }

    /// A payment that is followed without a splice behind it.
    pub fn new(
        details: PaymentDetails,
        conflicting_txids: Vec<Txid>,
        candidates: Vec<FundingTxCandidate>,
    ) -> (record: Self)
        ensures
            record == (PendingPaymentDetails::Followed {
                details,
                conflicting_txids,
                candidates,
                splice_intent: None,
            }),
    {
        PendingPaymentDetails::Followed {
            details,
            conflicting_txids,
            candidates,
            splice_intent: None,
        }
    }

    pub fn id(&self) -> (id: PaymentId)
        ensures
            id == self.spec_id(),
    {
        match self {
            PendingPaymentDetails::PendingSplice { id, .. } => *id,
            PendingPaymentDetails::Followed { details, .. } => details.id,
        }
    }

    /// The payment, unless the record is a bare intent.
    pub fn details(&self) -> (details: Option<&PaymentDetails>)
        ensures
            match *self {
                PendingPaymentDetails::PendingSplice { .. } => details is None,
                PendingPaymentDetails::Followed { details: d, .. } => details == Some(&d),
            },
    {
        match self {
            PendingPaymentDetails::PendingSplice { .. } => None,
            PendingPaymentDetails::Followed { details, .. } => Some(details),
        }
    }

    /// The intent of the splice behind the record.
    pub fn splice_intent(&self) -> (intent: Option<&SpliceIntent>)
        ensures
            match intent {
                Some(i) => self.intent() == Some(i@),
                None => self.intent() is None,
            },
    {
        match self {
            PendingPaymentDetails::PendingSplice { bare_intent, .. } => Some(bare_intent),
            PendingPaymentDetails::Followed { splice_intent, .. } => splice_intent.as_ref(),
        }
    }

    /// Puts another intent behind a followed payment, or none. Says whether that changed
    /// anything. The intent of a bare record can be exchanged, but not taken away.
    pub fn set_splice_intent(&mut self, intent: Option<SpliceIntent>) -> (changed: bool)
        ensures
            changed == (final(self).intent() != old(self).intent()),
            final(self).spec_id() == old(self).spec_id(),
            !changed ==> *final(self) == *old(self),
            match *old(self) {
                PendingPaymentDetails::PendingSplice { id, .. } => {
                    &&& intent is Some ==> final(self).intent() == intent_view(intent)
                    &&& intent is None ==> !changed
                    &&& *final(self) is PendingSplice
                },
                PendingPaymentDetails::Followed {
                    details,
                    conflicting_txids,
                    candidates,
                    splice_intent,
                } => {
                    &&& changed ==> *final(self) == (PendingPaymentDetails::Followed {
                        details,
                        conflicting_txids,
                        candidates,
                        splice_intent: intent,
                    })
                    &&& final(self).intent() == intent_view(intent)
                },
            },
    {
        let same = match (self.splice_intent(), &intent) {
            (Some(a), Some(b)) => a.same(b),
            (None, None) => true,
            _ => false,
        };
        if same {
            return false;
        }
        match self {
            PendingPaymentDetails::PendingSplice { bare_intent, .. } => match intent {
                Some(i) => {
                    *bare_intent = i;
                    true
                },
                None => false,
            },
            PendingPaymentDetails::Followed { splice_intent, .. } => {
                *splice_intent = intent;
                true
            },
        }
    }
}

/// A change of the record of a pending payment.
#[derive(Debug)]
pub struct PendingPaymentDetailsUpdate {
    pub id: PaymentId,
    pub payment_update: Option<PaymentDetailsUpdate>,
    pub conflicting_txids: Option<Vec<Txid>>,
}

/// Whether two lists of outputs pay the same amounts to the same scripts, in the same order.
pub open spec fn pay_alike(a: Seq<TxOut>, b: Seq<TxOut>) -> bool {
    &&& a.len() == b.len()
    &&& forall|k: int|
        0 <= k < a.len() ==> (#[trigger] a[k]).value_sats == b[k].value_sats && a[k].script_pubkey@
            == b[k].script_pubkey@
}

/// Lists of outputs are told apart by every amount and every script.
pub proof fn law_outputs_are_told_apart(a: Seq<TxOut>, b: Seq<TxOut>)
    ensures
        outputs_view(a) == outputs_view(b) <==> pay_alike(a, b),
        outputs_view(a).len() == a.len(),
        forall|k: int|
            0 <= k < a.len() ==> (#[trigger] outputs_view(a)[k]).value_sats == a[k].value_sats
                && outputs_view(a)[k].script_pubkey == a[k].script_pubkey@,
{
    if outputs_view(a) == outputs_view(b) {
        assert forall|k: int| 0 <= k < a.len() implies (#[trigger] a[k]).value_sats
            == b[k].value_sats && a[k].script_pubkey@ == b[k].script_pubkey@ by {
            assert(outputs_view(a)[k] == a[k]@);
            assert(outputs_view(b)[k] == b[k]@);
        }
        assert(outputs_view(a).len() == outputs_view(b).len());
    }
    if pay_alike(a, b) {
        assert(outputs_view(a) =~= outputs_view(b));
    }
}

/// Contributions are told apart by everything they hold: what they spend, what they pay, their change and
/// their fees.
pub proof fn law_contributions_are_told_apart(a: FundingContribution, b: FundingContribution)
    ensures
        a@ == b@ <==> a.inputs@ == b.inputs@ && pay_alike(a.outputs@, b.outputs@)
            && a.estimated_fee_sats == b.estimated_fee_sats && a.feerate_sat_per_kwu
            == b.feerate_sat_per_kwu && (match (a.change_output, b.change_output) {
            (Some(x), Some(y)) => x.value_sats == y.value_sats && x.script_pubkey@
                == y.script_pubkey@,
            (None, None) => true,
            _ => false,
        }),
{
    law_outputs_are_told_apart(a.outputs@, b.outputs@);
}

/// Intents are told apart by everything they hold: the peer, the channel, the funding that they build on,
/// the contribution, and what was asked for.
pub proof fn law_intents_are_told_apart(a: SpliceIntent, b: SpliceIntent)
    ensures
        a@ == b@ <==> a.counterparty_node_id == b.counterparty_node_id && a.channel_id
            == b.channel_id && a.pre_splice_funding_txo == b.pre_splice_funding_txo
            && a.contribution@ == b.contribution@ && (match (a.kind, b.kind) {
            (SpliceKind::In { amount_sats: x }, SpliceKind::In { amount_sats: y }) => x == y,
            (SpliceKind::Out { outputs: x }, SpliceKind::Out { outputs: y }) => pay_alike(x@, y@),
            (SpliceKind::Rbf {  }, SpliceKind::Rbf {  }) => true,
            _ => false,
        }),
{
    if let (SpliceKind::Out { outputs: x }, SpliceKind::Out { outputs: y }) = (a.kind, b.kind) {
        law_outputs_are_told_apart(x@, y@);
    }
}

/// A bare record goes by the id it was given, carries its intent, and knows of no round. A followed
/// payment goes by the id of the payment, carries the intent that was put behind it, if any, and knows of
/// its rounds.
pub proof fn law_records_hold_what_they_were_made_of(
    id: PaymentId,
    intent: SpliceIntent,
    details: PaymentDetails,
    conflicting_txids: Vec<Txid>,
    candidates: Vec<FundingTxCandidate>,
)
    ensures
        ({
            let bare = PendingPaymentDetails::PendingSplice { id, bare_intent: intent };
            let plain = PendingPaymentDetails::Followed {
                details,
                conflicting_txids,
                candidates,
                splice_intent: None,
            };
            let spliced = PendingPaymentDetails::Followed {
                details,
                conflicting_txids,
                candidates,
                splice_intent: Some(intent),
            };
            &&& bare.spec_id() == id
            &&& bare.intent() == Some(intent@)
            &&& bare.spec_candidates().len() == 0
            &&& plain.spec_id() == details.id && spliced.spec_id() == details.id
            &&& plain.intent() is None && spliced.intent() == Some(intent@)
            &&& plain.spec_candidates() == candidates@ && spliced.spec_candidates() == candidates@
            &&& plain.same_but_for_intent(spliced) && spliced.same_but_for_intent(plain)
            &&& !bare.same_but_for_intent(plain) && !spliced.same_but_for_intent(bare)
        }),
{
}

/// Records that differ in nothing but their intents have the same id and the same rounds.
pub proof fn law_another_intent_leaves_the_payment(
    a: PendingPaymentDetails,
    b: PendingPaymentDetails,
)
    requires
        a.same_but_for_intent(b),
    ensures
        a.spec_id() == b.spec_id(),
        a.spec_candidates() == b.spec_candidates(),
        a is PendingSplice == b is PendingSplice,
        a matches PendingPaymentDetails::Followed { details: x, conflicting_txids: y, .. } ==> (
        b matches PendingPaymentDetails::Followed { details: u, conflicting_txids: v, .. } && x == u
            && y == v),
{
}

/// An outpoint of the channel state is the outpoint of the same transaction and the same position.
pub proof fn law_outpoints_keep_their_position(outpoint: LdkOutPoint, other: LdkOutPoint)
    ensures
        outpoint.as_outpoint().txid == outpoint.txid,
        outpoint.as_outpoint().vout == outpoint.index,
        outpoint.as_outpoint() == other.as_outpoint() <==> outpoint == other,
{
}

/// Outputs are found to be the same exactly if they pay the same amounts to the same scripts, and outpoints
/// exactly if they are of the same transactions and positions.
pub proof fn law_outputs_are_compared_in_full(
    a: Vec<TxOut>,
    b: Vec<TxOut>,
    same: bool,
    x: Vec<OutPoint>,
    y: Vec<OutPoint>,
    same_outpoints: bool,
)
    requires
        call_ensures(outputs_eq, (&a, &b), same),
        call_ensures(outpoints_eq, (&x, &y), same_outpoints),
    ensures
        same <==> pay_alike(a@, b@),
        same_outpoints <==> x@ == y@,
{
    law_outputs_are_told_apart(a@, b@);
}

} // verus!
