//! What becomes of the splices that this node has asked for.
//!
//! A splice is recorded as an intent before its contribution is handed over, so that one that was
//! in flight when the node stopped is recognized at the next start and whatever it had reserved is
//! released. The intent is undone when the hand-off fails, and cleared once the splice locks, its
//! failure is surfaced, or its channel closes.
pub mod store;

use crate::error::Error;
use crate::payment::{
    Channel, ContributionView, FundingContribution, IntentView, LdkOutPoint, PaymentKind,
    PendingPaymentDetails, SpliceIntent, SpliceKind, SpliceKindView, TransactionType, TxOut,
    TxOutView,
};
use crate::types::{ChannelId, OutPoint, PaymentId, PublicKey, Txid};
use vstd::prelude::*;

verus! {

/// How far the negotiation of a splice round has come.
#[derive(Clone, Copy, Debug)]
pub enum SpliceCandidateStatus {
    /// The round waits for a pending splice to lock.
    WaitingOnLock,
    /// The round is being negotiated.
    Negotiating,
    /// The transaction of the round is complete but for its signatures.
    AwaitingSignatures {
        is_initiator: bool,
        funding_feerate_sat_per_1000_weight: u32,
        new_channel_value_satoshis: u64,
        txid: Txid,
    },
    /// The round waits for its transaction to confirm.
    Negotiated { txid: Txid, new_channel_value_satoshis: u64 },
}

/// A splice round of a channel, with what this node contributes to it, if anything.
#[derive(Debug)]
pub struct SpliceCandidateDetails {
    pub contribution: Option<FundingContribution>,
    pub status: SpliceCandidateStatus,
}

/// What the channel state says of a channel.
#[derive(Debug)]
pub struct ChannelState {
    pub funding_txo: Option<LdkOutPoint>,
    pub candidates: Vec<SpliceCandidateDetails>,
}

/// Whether two contributions describe the same splice attempt.
///
/// A contribution may be adjusted during negotiation, touching only its fee fields and change
/// value, so fees and feerates do not identify an attempt. Its inputs and outputs do: they are what
/// the user asked to move. Contributions carrying neither fall back to full equality.
pub open spec fn same_splice(a: ContributionView, b: ContributionView) -> bool {
    if a.inputs.len() == 0 && a.outputs.len() == 0 && b.inputs.len() == 0 && b.outputs.len() == 0 {
        a == b
    } else {
        a.inputs == b.inputs && a.outputs == b.outputs
    }
}

/// Being the same splice attempt is an equivalence.
pub proof fn law_same_splice_is_an_equivalence(
    a: ContributionView,
    b: ContributionView,
    c: ContributionView,
)
    ensures
        same_splice(a, a),
        same_splice(a, b) == same_splice(b, a),
        same_splice(a, b) && same_splice(b, c) ==> same_splice(a, c),
{
}

/// The fee of a contribution that moves anything does not tell attempts apart.
pub proof fn law_fees_do_not_identify_a_splice(
    a: ContributionView,
    change_output: Option<TxOutView>,
    estimated_fee_sats: u64,
    feerate_sat_per_kwu: u64,
)
    requires
        a.inputs.len() > 0 || a.outputs.len() > 0,
    ensures
        same_splice(
            a,
            ContributionView { change_output, estimated_fee_sats, feerate_sat_per_kwu, ..a },
        ),
{
}

/// Whether two contributions describe the same splice attempt.
pub fn is_same_splice(a: &FundingContribution, b: &FundingContribution) -> (same: bool)
    ensures
        same == same_splice(a@, b@),
{
    if a.inputs.is_empty() && a.outputs.is_empty() && b.inputs.is_empty() && b.outputs.is_empty() {
        return a.same(b);
    }
    crate::payment::outpoints_eq(&a.inputs, &b.inputs) && crate::payment::outputs_eq(
        &a.outputs,
        &b.outputs,
    )
}

/// Why a submission is refused once the channel's funding turns out to differ from the one the
/// caller built the contribution against, decided by [`check_submission`].
#[derive(Clone, Copy, Debug, PartialEq, Eq, Structural)]
pub enum SubmissionRefusal {
    /// The channel is no longer listed, or is listed without a funding.
    ChannelGone,
    /// The round a fee bump was built to replace has locked; there is nothing left to bump.
    BumpedRoundLocked,
    /// A splice locked while the splice-in's inputs were being selected, and may have spent them.
    InputsMayBeSpent,
}

impl SubmissionRefusal {
    /// The refusal in words.
    pub open spec fn spec_message(self) -> &'static str {
        match self {
            SubmissionRefusal::ChannelGone => "the channel is gone or has no funding",
            SubmissionRefusal::BumpedRoundLocked =>
                "the funding moved since the bump was built; its round has locked",
            SubmissionRefusal::InputsMayBeSpent =>
                "the funding moved since the splice was built; the locked round may have spent its inputs",
        }
    }

    /// The refusal in words.
    pub fn message(&self) -> (text: String)
        ensures
            text@ == self.spec_message()@,
    {
        match self {
            SubmissionRefusal::ChannelGone => "the channel is gone or has no funding".to_owned(),
            SubmissionRefusal::BumpedRoundLocked =>
                "the funding moved since the bump was built; its round has locked".to_owned(),
            SubmissionRefusal::InputsMayBeSpent =>
                "the funding moved since the splice was built; the locked round may have spent its inputs".to_owned(),
        }
    }
}

/// Whether a submission built against `requested_funding` may proceed now that the channel's
/// funding is `live_funding`, and at which funding to anchor its intent.
///
/// A funding that has not moved proceeds. One that has means a splice locked while the contribution
/// was being built, and only a splice-out proceeds, anchored at the live funding: it carries no
/// wallet inputs. A fee bump was built to replace that very round. A splice-in is refused because
/// its inputs were selected before the lock and may be among those the locked round spent.
pub fn check_submission(
    requested_funding: LdkOutPoint,
    live_funding: Option<LdkOutPoint>,
    kind: &SpliceKind,
) -> (anchor: Result<LdkOutPoint, SubmissionRefusal>)
    ensures
        anchor == (match live_funding {
            None => Err::<LdkOutPoint, SubmissionRefusal>(SubmissionRefusal::ChannelGone),
            Some(live) => if live == requested_funding {
                Ok::<LdkOutPoint, SubmissionRefusal>(live)
            } else {
                match kind@ {
                    SpliceKindView::Rbf => Err::<LdkOutPoint, SubmissionRefusal>(
                        SubmissionRefusal::BumpedRoundLocked,
                    ),
                    SpliceKindView::In(_) => Err::<LdkOutPoint, SubmissionRefusal>(
                        SubmissionRefusal::InputsMayBeSpent,
                    ),
                    SpliceKindView::Out(_) => Ok::<LdkOutPoint, SubmissionRefusal>(live),
                }
            },
        }),
{
    let live = match live_funding {
        Some(live) => live,
        None => {
            return Err(SubmissionRefusal::ChannelGone);
        },
    };
    if live.same(&requested_funding) {
        return Ok(live);
    }
    match kind {
        SpliceKind::Rbf {  } => Err(SubmissionRefusal::BumpedRoundLocked),
        SpliceKind::In { .. } => Err(SubmissionRefusal::InputsMayBeSpent),
        SpliceKind::Out { .. } => Ok(live),
    }
}

/// The outputs of a contribution, its change last.
pub open spec fn all_outputs(c: ContributionView) -> Seq<TxOutView> {
    match c.change_output {
        Some(change) => c.outputs.push(change),
        None => c.outputs,
    }
}

/// Whether one of some contributions spends an outpoint.
pub open spec fn input_claimed(claimants: Seq<ContributionView>, outpoint: OutPoint) -> bool {
    exists|i: int| 0 <= i < claimants.len() && (#[trigger] claimants[i]).inputs.contains(outpoint)
}

/// Whether a contribution pays a script, its change included.
pub open spec fn pays(c: ContributionView, script: Seq<u8>) -> bool {
    exists|k: int| 0 <= k < all_outputs(c).len() && (#[trigger] all_outputs(c)[k]).script_pubkey == script
}

/// Whether one of some contributions pays a script, its change included.
pub open spec fn script_claimed(claimants: Seq<ContributionView>, script: Seq<u8>) -> bool {
    exists|i: int| 0 <= i < claimants.len() && pays(#[trigger] claimants[i], script)
}

/// The inputs of a contribution that no other contribution spends, in order.
pub open spec fn free_inputs(
    inputs: Seq<OutPoint>,
    claimants: Seq<ContributionView>,
) -> Seq<OutPoint> {
    inputs.filter(|o: OutPoint| !input_claimed(claimants, o))
}

/// The outputs of a contribution to scripts that no other contribution pays, in order.
pub open spec fn free_outputs(
    outputs: Seq<TxOutView>,
    claimants: Seq<ContributionView>,
) -> Seq<TxOutView> {
    outputs.filter(|o: TxOutView| !script_claimed(claimants, o.script_pubkey))
}

/// What contributions move.
pub open spec fn contributions_view(contributions: Seq<&FundingContribution>) -> Seq<
    ContributionView,
> {
    contributions.map_values(|c: &FundingContribution| c@)
}

proof fn lemma_filter_step<T>(s: Seq<T>, i: int, keep: spec_fn(T) -> bool)
    requires
        0 <= i < s.len(),
    ensures
        s.subrange(0, i + 1).filter(keep) == (if keep(s[i]) {
            s.subrange(0, i).filter(keep).push(s[i])
        } else {
            s.subrange(0, i).filter(keep)
        }),
{
    reveal(Seq::filter);
    assert(s.subrange(0, i + 1).drop_last() =~= s.subrange(0, i));
    assert(s.subrange(0, i + 1).last() == s[i]);
}

fn is_input_claimed(claimants: &Vec<&FundingContribution>, outpoint: &OutPoint) -> (claimed: bool)
    ensures
        claimed == input_claimed(contributions_view(claimants@), *outpoint),
{
    let ghost views = contributions_view(claimants@);
    let mut i: usize = 0;
    while i < claimants.len()
        invariant
            i <= claimants@.len(),
            views == contributions_view(claimants@),
            forall|a: int| 0 <= a < i ==> !(#[trigger] views[a]).inputs.contains(*outpoint),
        decreases claimants@.len() - i,
    {
        let inputs = &claimants[i].inputs;
        assert(views[i as int].inputs == inputs@);
        let mut k: usize = 0;
        while k < inputs.len()
            invariant
                k <= inputs@.len(),
                forall|b: int| 0 <= b < k ==> inputs@[b] != *outpoint,
                i < views.len(),
                views == contributions_view(claimants@),
                views[i as int].inputs == inputs@,
            decreases inputs@.len() - k,
        {
            if inputs[k] == *outpoint {
                assert(views[i as int].inputs[k as int] == *outpoint);
                assert(views[i as int].inputs.contains(*outpoint));
                return true;
            }
            k += 1;
        }
        i += 1;
    }
    false
}

fn output_pays(output: &TxOut, script: &Vec<u8>) -> (same: bool)
    ensures
        same == (output@.script_pubkey == script@),
{
    crate::types::slices_eq(output.script_pubkey.as_slice(), script.as_slice())
}

fn is_script_claimed(claimants: &Vec<&FundingContribution>, script: &Vec<u8>) -> (claimed: bool)
    ensures
        claimed == script_claimed(contributions_view(claimants@), script@),
{
    let ghost views = contributions_view(claimants@);
    let mut i: usize = 0;
    while i < claimants.len()
        invariant
            i <= claimants@.len(),
            views == contributions_view(claimants@),
            forall|a: int| 0 <= a < i ==> !pays(#[trigger] views[a], script@),
        decreases claimants@.len() - i,
    {
        let outputs = &claimants[i].outputs;
        let ghost v = views[i as int];
        assert(v == claimants@[i as int]@);
        let mut k: usize = 0;
        while k < outputs.len()
            invariant
                k <= outputs@.len(),
                i < views.len(),
                views == contributions_view(claimants@),
                v == views[i as int],
                v.outputs == crate::payment::outputs_view(outputs@),
                forall|b: int| 0 <= b < k ==> outputs@[b]@.script_pubkey != script@,
            decreases outputs@.len() - k,
        {
            if output_pays(&outputs[k], script) {
                assert(all_outputs(v)[k as int] == outputs@[k as int]@);
                assert(pays(v, script@));
                return true;
            }
            k += 1;
        }
        if let Some(change) = &claimants[i].change_output {
            if output_pays(change, script) {
                assert(all_outputs(v)[v.outputs.len() as int] == change@);
                assert(pays(v, script@));
                return true;
            }
        }
        assert(!pays(v, script@)) by {
            assert forall|k: int| 0 <= k < all_outputs(v).len() implies (
            #[trigger] all_outputs(v)[k]).script_pubkey != script@ by {
                if k < v.outputs.len() {
                    assert(all_outputs(v)[k] == outputs@[k]@);
                }
            }
        }
        i += 1;
    }
    false
}

/// The parts of `contribution` none of `claimants` uses: the inputs none of them spends, and the
/// outputs, change included, paying a script none of them pays. Outputs are matched by script
/// rather than as a whole: a fee-adjusted bump pays its change to the same address as the round it
/// replaces, at a different amount.
pub fn unclaimed_parts(
    contribution: &FundingContribution,
    claimants: &Vec<&FundingContribution>,
) -> (parts: (Vec<OutPoint>, Vec<TxOut>))
    ensures
        parts.0@ == free_inputs(contribution@.inputs, contributions_view(claimants@)),
        crate::payment::outputs_view(parts.1@) == free_outputs(
            all_outputs(contribution@),
            contributions_view(claimants@),
        ),
{
    let ghost views = contributions_view(claimants@);
    let ghost keep_input = |o: OutPoint| !input_claimed(views, o);
    let ghost keep_output = |o: TxOutView| !script_claimed(views, o.script_pubkey);
    let ghost all_inputs = contribution.inputs@;
    let mut inputs: Vec<OutPoint> = Vec::new();
    let mut i: usize = 0;
    proof {
        reveal(Seq::filter);
        assert(all_inputs.subrange(0, 0).filter(keep_input) =~= Seq::empty());
    }
    while i < contribution.inputs.len()
        invariant
            i <= all_inputs.len(),
            all_inputs == contribution.inputs@,
            views == contributions_view(claimants@),
            keep_input == (|o: OutPoint| !input_claimed(views, o)),
            inputs@ == all_inputs.subrange(0, i as int).filter(keep_input),
        decreases all_inputs.len() - i,
    {
        let outpoint = contribution.inputs[i];
        proof {
            lemma_filter_step(all_inputs, i as int, keep_input);
        }
        if !is_input_claimed(claimants, &outpoint) {
            inputs.push(outpoint);
        }
        i += 1;
    }
    assert(all_inputs.subrange(0, i as int) =~= all_inputs);

    let ghost all = all_outputs(contribution@);
    let ghost n = contribution.outputs@.len() as int;
    let mut outputs: Vec<TxOut> = Vec::new();
    let mut k: usize = 0;
    proof {
        reveal(Seq::filter);
        assert(all.subrange(0, 0).filter(keep_output) =~= Seq::empty());
        assert(crate::payment::outputs_view(outputs@) =~= Seq::empty());
    }
    while k < contribution.outputs.len()
        invariant
            k <= n,
            n == contribution.outputs@.len(),
            n <= all.len(),
            all == all_outputs(contribution@),
            views == contributions_view(claimants@),
            keep_output == (|o: TxOutView| !script_claimed(views, o.script_pubkey)),
            crate::payment::outputs_view(outputs@) == all.subrange(0, k as int).filter(
                keep_output,
            ),
        decreases n - k,
    {
        let output = &contribution.outputs[k];
        proof {
            assert(all[k as int] == output@);
            lemma_filter_step(all, k as int, keep_output);
        }
        if !is_script_claimed(claimants, &output.script_pubkey) {
            let ghost before = outputs@;
            outputs.push(output.clone());
            assert(crate::payment::outputs_view(outputs@) =~= crate::payment::outputs_view(
                before,
            ).push(output@));
        }
        k += 1;
    }
    if let Some(change) = &contribution.change_output {
        proof {
            assert(all[n] == change@);
            lemma_filter_step(all, n, keep_output);
        }
        if !is_script_claimed(claimants, &change.script_pubkey) {
            let ghost before = outputs@;
            outputs.push(change.clone());
            assert(crate::payment::outputs_view(outputs@) =~= crate::payment::outputs_view(
                before,
            ).push(change@));
        }
        assert(all.subrange(0, n + 1) =~= all);
    } else {
        assert(all.subrange(0, n) =~= all);
    }
    (inputs, outputs)
}

/// Nothing that another contribution uses is among the free parts of one.
pub proof fn law_free_parts_spare_what_others_use(
    contribution: ContributionView,
    claimants: Seq<ContributionView>,
)
    ensures
        forall|i: int|
            0 <= i < free_inputs(contribution.inputs, claimants).len() ==> !input_claimed(
                claimants,
                #[trigger] free_inputs(contribution.inputs, claimants)[i],
            ),
        forall|i: int|
            0 <= i < free_outputs(all_outputs(contribution), claimants).len() ==> !script_claimed(
                claimants,
                (#[trigger] free_outputs(all_outputs(contribution), claimants)[i]).script_pubkey,
            ),
{
    let keep_input = |o: OutPoint| !input_claimed(claimants, o);
    let keep_output = |o: TxOutView| !script_claimed(claimants, o.script_pubkey);
    assert forall|i: int|
        0 <= i < free_inputs(contribution.inputs, claimants).len() implies !input_claimed(
        claimants,
        #[trigger] free_inputs(contribution.inputs, claimants)[i],
    ) by {
        contribution.inputs.lemma_filter_pred(keep_input, i);
    }
    assert forall|i: int|
        0 <= i < free_outputs(all_outputs(contribution), claimants).len() implies !script_claimed(
        claimants,
        (#[trigger] free_outputs(all_outputs(contribution), claimants)[i]).script_pubkey,
    ) by {
        all_outputs(contribution).lemma_filter_pred(keep_output, i);
    }
}

/// A contribution that nothing else shares anything with is free as a whole.
pub proof fn law_all_parts_are_free_without_claimants(contribution: ContributionView)
    ensures
        free_inputs(contribution.inputs, Seq::empty()) == contribution.inputs,
        free_outputs(all_outputs(contribution), Seq::empty()) == all_outputs(contribution),
{
    lemma_filter_all(
        contribution.inputs,
        |o: OutPoint| !input_claimed(Seq::empty(), o),
    );
    lemma_filter_all(
        all_outputs(contribution),
        |o: TxOutView| !script_claimed(Seq::empty(), o.script_pubkey),
    );
}

proof fn lemma_filter_all<T>(s: Seq<T>, keep: spec_fn(T) -> bool)
    requires
        forall|i: int| 0 <= i < s.len() ==> keep(#[trigger] s[i]),
    ensures
        s.filter(keep) == s,
    decreases s.len(),
{
    reveal(Seq::filter);
    if s.len() > 0 {
        assert forall|i: int| 0 <= i < s.drop_last().len() implies keep(
            #[trigger] s.drop_last()[i],
        ) by {
            assert(s.drop_last()[i] == s[i]);
        }
        lemma_filter_all(s.drop_last(), keep);
        assert(keep(s[s.len() - 1]));
        assert(s.drop_last().push(s.last()) =~= s);
    } else {
        assert(s.filter(keep) =~= s);
    }
}

/// Whether a payment is the funding of the given channel that was negotiated with its
/// counterparty.
pub open spec fn funds_channel(
    kind: PaymentKind,
    counterparty_node_id: PublicKey,
    channel_id: ChannelId,
) -> bool {
    match kind {
        PaymentKind::Onchain {
            tx_type: Some(TransactionType::InteractiveFunding { channels }),
            ..
        } => channels@.contains(Channel { counterparty_node_id, channel_id }),
        _ => false,
    }
}

/// Whether a record carries an intent for a splice of the given channel.
pub open spec fn intends_splice_of(
    record: PendingPaymentDetails,
    counterparty_node_id: PublicKey,
    channel_id: ChannelId,
) -> bool {
    record.intent() matches Some(i) && i.channel_id == channel_id && i.counterparty_node_id
        == counterparty_node_id
}

/// Whether a pending record concerns the given channel's splices.
pub open spec fn concerns(
    record: PendingPaymentDetails,
    counterparty_node_id: PublicKey,
    channel_id: ChannelId,
) -> bool {
    if record.intent() is Some {
        intends_splice_of(record, counterparty_node_id, channel_id)
    } else {
        match record {
            PendingPaymentDetails::PendingSplice { .. } => false,
            PendingPaymentDetails::Followed { details, .. } => funds_channel(
                details.kind,
                counterparty_node_id,
                channel_id,
            ),
        }
    }
}

/// Whether a pending record carries a splice intent for the given channel. There is one such
/// record per splice of the channel still in flight, a fee bump sharing the record of the round it
/// replaces.
pub fn carries_intent_for(
    record: &PendingPaymentDetails,
    counterparty_node_id: PublicKey,
    channel_id: ChannelId,
) -> (carries: bool)
    ensures
        carries == intends_splice_of(*record, counterparty_node_id, channel_id),
{
    match record.splice_intent() {
        Some(intent) => intent.channel_id == channel_id && intent.counterparty_node_id
            == counterparty_node_id,
        None => false,
    }
}

fn lists_channel(
    channels: &Vec<Channel>,
    counterparty_node_id: PublicKey,
    channel_id: ChannelId,
) -> (listed: bool)
    ensures
        listed == channels@.contains(Channel { counterparty_node_id, channel_id }),
{
    let ghost wanted = Channel { counterparty_node_id, channel_id };
    let mut i: usize = 0;
    while i < channels.len()
        invariant
            i <= channels@.len(),
            wanted == (Channel { counterparty_node_id, channel_id }),
            forall|j: int| 0 <= j < i ==> channels@[j] != wanted,
        decreases channels@.len() - i,
    {
        if channels[i].channel_id == channel_id && channels[i].counterparty_node_id
            == counterparty_node_id {
            assert(channels@[i as int] == wanted);
            return true;
        }
        i += 1;
    }
    false
}

/// Whether a pending record concerns the given channel's splices: it carries a splice intent for
/// the channel, or tracks an interactive funding payment of it.
pub fn concerns_channel(
    record: &PendingPaymentDetails,
    counterparty_node_id: PublicKey,
    channel_id: ChannelId,
) -> (concerned: bool)
    ensures
        concerned == concerns(*record, counterparty_node_id, channel_id),
{
    if record.splice_intent().is_some() {
        return carries_intent_for(record, counterparty_node_id, channel_id);
    }
    match record.details() {
        Some(details) => match &details.kind {
            PaymentKind::Onchain {
                tx_type: Some(TransactionType::InteractiveFunding { channels }),
                ..
            } => {
                lists_channel(channels, counterparty_node_id, channel_id)
            },
            _ => false,
        },
        None => false,
    }
}

/// Where the intent of a new submission is recorded, decided by [`place_intent`].
#[derive(Clone, Copy, Debug)]
pub enum IntentPlacement {
    /// The channel carries an intent anchored at another funding, one that could neither be settled
    /// nor re-anchored; the submission is refused.
    Refused,
    /// The submission joins the given record.
    Reuse(PaymentId),
    /// The submission gets a record of its own.
    Fresh,
}

impl PartialEq for IntentPlacement {
    fn eq(&self, other: &Self) -> (same: bool) {
        match (self, other) {
            (IntentPlacement::Refused, IntentPlacement::Refused) => true,
            (IntentPlacement::Reuse(a), IntentPlacement::Reuse(b)) => *a == *b,
            (IntentPlacement::Fresh, IntentPlacement::Fresh) => true,
            _ => false,
        }
    }
}

impl vstd::std_specs::cmp::PartialEqSpecImpl for IntentPlacement {
    open spec fn obeys_eq_spec() -> bool {
        true
    }

    open spec fn eq_spec(&self, other: &Self) -> bool {
        *self == *other
    }
}

/// Whether a record's intent builds on another funding.
pub open spec fn anchored_elsewhere(record: PendingPaymentDetails, anchor: LdkOutPoint) -> bool {
    record.intent() matches Some(i) && i.pre_splice_funding_txo != anchor
}

/// Whether a record tracks one of the given rounds.
pub open spec fn tracks_round(record: PendingPaymentDetails, rounds: Seq<Txid>) -> bool {
    exists|k: int|
        0 <= k < record.spec_candidates().len() && rounds.contains(
            (#[trigger] record.spec_candidates()[k]).txid,
        )
}

/// The first record that satisfies a condition.
pub open spec fn is_first(
    records: Seq<PendingPaymentDetails>,
    i: int,
    holds: spec_fn(PendingPaymentDetails) -> bool,
) -> bool {
    &&& 0 <= i < records.len()
    &&& holds(records[i])
    &&& forall|j: int| 0 <= j < i ==> !holds(#[trigger] records[j])
}

/// Where the intent of a submission belongs.
pub open spec fn placed(
    anchor: LdkOutPoint,
    kind: SpliceKindView,
    records: Seq<PendingPaymentDetails>,
    held_rounds: Seq<Txid>,
    placement: IntentPlacement,
) -> bool {
    let holds_round = |r: PendingPaymentDetails| tracks_round(r, held_rounds);
    let holds_intent = |r: PendingPaymentDetails| r.intent() is Some;
    if exists|i: int| 0 <= i < records.len() && anchored_elsewhere(#[trigger] records[i], anchor) {
        placement == IntentPlacement::Refused
    } else if kind is Rbf {
        if exists|i: int| 0 <= i < records.len() && holds_round(#[trigger] records[i]) {
            exists|i: int| #[trigger]
                is_first(records, i, holds_round) && placement == IntentPlacement::Reuse(
                    records[i].spec_id(),
                )
        } else if exists|i: int| 0 <= i < records.len() && holds_intent(#[trigger] records[i]) {
            exists|i: int| #[trigger]
                is_first(records, i, holds_intent) && placement == IntentPlacement::Reuse(
                    records[i].spec_id(),
                )
        } else {
            placement == IntentPlacement::Fresh
        }
    } else {
        placement == IntentPlacement::Fresh
    }
}

fn tracks_held_round(record: &PendingPaymentDetails, held_rounds: &[Txid]) -> (tracks: bool)
    ensures
        tracks == tracks_round(*record, held_rounds@),
{
    match record {
        PendingPaymentDetails::PendingSplice { .. } => false,
        PendingPaymentDetails::Followed { candidates, .. } => {
            let mut k: usize = 0;
            while k < candidates.len()
                invariant
                    k <= candidates@.len(),
                    record.spec_candidates() == candidates@,
                    forall|b: int|
                        0 <= b < k ==> !held_rounds@.contains((#[trigger] candidates@[b]).txid),
                decreases candidates@.len() - k,
            {
                let mut h: usize = 0;
                while h < held_rounds.len()
                    invariant
                        h <= held_rounds@.len(),
                        k < candidates@.len(),
                        record.spec_candidates() == candidates@,
                        forall|b: int| 0 <= b < h ==> held_rounds@[b] != candidates@[k as int].txid,
                    decreases held_rounds@.len() - h,
                {
                    if held_rounds[h] == candidates[k].txid {
                        assert(held_rounds@[h as int] == record.spec_candidates()[k as int].txid);
                        return true;
                    }
                    h += 1;
                }
                k += 1;
            }
            false
        },
    }
}

/// Decides where the intent of a new submission is recorded, given the channel's pending records
/// (those carrying an intent for the channel or tracking a funding payment of it) and the txids of
/// the splice rounds that the channel state holds.
///
/// Every splice gets a record of its own, so that its failure is described from its own intent and
/// a restart recognizes it whatever became of the channel's other splices. Only a fee bump joins an
/// existing record, that of the round it replaces: the record tracking a round still held, or else
/// the channel's bare intent record, whose round negotiated but recorded nothing.
pub fn place_intent(
    intent: &SpliceIntent,
    records: &[PendingPaymentDetails],
    held_rounds: &[Txid],
) -> (placement: IntentPlacement)
    ensures
        placed(
            intent.pre_splice_funding_txo,
            intent.kind@,
            records@,
            held_rounds@,
            placement,
        ),
{
    let ghost anchor = intent.pre_splice_funding_txo;
    let ghost holds_round = |r: PendingPaymentDetails| tracks_round(r, held_rounds@);
    let ghost holds_intent = |r: PendingPaymentDetails| r.intent() is Some;
    let mut i: usize = 0;
    while i < records.len()
        invariant
            i <= records@.len(),
            anchor == intent.pre_splice_funding_txo,
            forall|j: int| 0 <= j < i ==> !anchored_elsewhere(#[trigger] records@[j], anchor),
        decreases records@.len() - i,
    {
        if let Some(recorded) = records[i].splice_intent() {
            if !recorded.pre_splice_funding_txo.same(&intent.pre_splice_funding_txo) {
                assert(anchored_elsewhere(records@[i as int], anchor));
                return IntentPlacement::Refused;
            }
        }
        i += 1;
    }
    match intent.kind {
        SpliceKind::Rbf {  } => {
            let mut j: usize = 0;
            while j < records.len()
                invariant
                    j <= records@.len(),
                    intent.kind@ is Rbf,
                    anchor == intent.pre_splice_funding_txo,
                    holds_round == (|r: PendingPaymentDetails| tracks_round(r, held_rounds@)),
                    forall|a: int|
                        0 <= a < records@.len() ==> !anchored_elsewhere(
                            #[trigger] records@[a],
                            anchor,
                        ),
                    forall|a: int| 0 <= a < j ==> !holds_round(#[trigger] records@[a]),
                decreases records@.len() - j,
            {
                if tracks_held_round(&records[j], held_rounds) {
                    assert(is_first(records@, j as int, holds_round));
                    return IntentPlacement::Reuse(records[j].id());
                }
                j += 1;
            }
            let mut k: usize = 0;
            while k < records.len()
                invariant
                    k <= records@.len(),
                    intent.kind@ is Rbf,
                    anchor == intent.pre_splice_funding_txo,
                    holds_round == (|r: PendingPaymentDetails| tracks_round(r, held_rounds@)),
                    holds_intent == (|r: PendingPaymentDetails| r.intent() is Some),
                    forall|a: int|
                        0 <= a < records@.len() ==> !anchored_elsewhere(
                            #[trigger] records@[a],
                            anchor,
                        ),
                    forall|a: int| 0 <= a < records@.len() ==> !holds_round(#[trigger] records@[a]),
                    forall|a: int| 0 <= a < k ==> !holds_intent(#[trigger] records@[a]),
                decreases records@.len() - k,
            {
                if records[k].splice_intent().is_some() {
                    assert(is_first(records@, k as int, holds_intent));
                    return IntentPlacement::Reuse(records[k].id());
                }
                k += 1;
            }
            IntentPlacement::Fresh
        },
        SpliceKind::In { .. } | SpliceKind::Out { .. } => IntentPlacement::Fresh,
    }
}

/// Whether a record's intent is for the splice that a contribution identifies.
pub open spec fn intent_is_for_splice(
    record: PendingPaymentDetails,
    contribution: ContributionView,
) -> bool {
    record.intent() matches Some(i) && same_splice(i.contribution, contribution)
}

/// The first record whose intent is for the splice that a contribution identifies.
pub open spec fn is_first_for_splice(
    records: Seq<PendingPaymentDetails>,
    i: int,
    contribution: ContributionView,
) -> bool {
    &&& 0 <= i < records.len()
    &&& intent_is_for_splice(records[i], contribution)
    &&& forall|j: int| 0 <= j < i ==> !intent_is_for_splice(#[trigger] records[j], contribution)
}

/// The record, and its intent, of the splice a failure event identifies by `contribution` among
/// the channel's intent records: the first one whose intent's contribution is the same attempt. A
/// failure that reports no contribution identifies nothing, as does one whose contribution matches
/// no recorded intent.
pub fn record_of_failed_splice<'a>(
    records: &'a [PendingPaymentDetails],
    contribution: Option<&FundingContribution>,
) -> (matched: Option<(PaymentId, &'a SpliceIntent)>)
    ensures
        match matched {
            Some((id, intent)) => {
                &&& contribution matches Some(c) && exists|i: int| #[trigger]
                    is_first_for_splice(records@, i, c@) && records@[i].spec_id() == id && records@[i].intent() == Some(intent@)
            },
            None => contribution matches Some(c) ==> forall|i: int|
                0 <= i < records@.len() ==> !intent_is_for_splice(#[trigger] records@[i], c@),
        },
{
    let c = match contribution {
        Some(c) => c,
        None => {
            return None;
        },
    };
    let mut i: usize = 0;
    while i < records.len()
        invariant
            i <= records@.len(),
            contribution == Some(c),
            forall|j: int| 0 <= j < i ==> !intent_is_for_splice(#[trigger] records@[j], c@),
        decreases records@.len() - i,
    {
        if let Some(intent) = records[i].splice_intent() {
            if is_same_splice(&intent.contribution, c) {
                assert(is_first_for_splice(records@, i as int, c@));
                return Some((records[i].id(), intent));
            }
        }
        i += 1;
    }
    None
}

/// What a lock of the funding a channel has moved on to, or a new splice building on it, means for
/// one of the channel's recorded intents, decided by [`decide_on_lock`].
#[derive(Clone, Copy, Debug, PartialEq, Eq, Structural)]
pub enum LockDecision {
    /// The intent is anchored at that funding: its splice was submitted after the lock.
    Keep,
    /// The intent's contribution is still held as a splice candidate, queued behind the splice that
    /// locked and carried across the lock, so the intent is re-anchored to the new funding.
    Refresh,
    /// The lock superseded the intent's splice: the splice locked, a replacement or a counterparty
    /// splice locked instead, or the queued splice was failed at the lock. The intent is settled.
    Settle,
}

/// Whether one of the candidates is the splice that a contribution identifies.
pub open spec fn still_held(
    candidates: Seq<SpliceCandidateDetails>,
    contribution: ContributionView,
) -> bool {
    exists|i: int|
        0 <= i < candidates.len() && ((#[trigger] candidates[i]).contribution matches Some(c)
            && same_splice(c@, contribution))
}

/// Decides what the channel's funding having moved on to `funding_txo` means for `intent`, given
/// the splice candidates held for the channel.
pub fn decide_on_lock(
    intent: &SpliceIntent,
    funding_txo: OutPoint,
    candidates: &[SpliceCandidateDetails],
) -> (decision: LockDecision)
    ensures
        decision == (if intent.pre_splice_funding_txo.as_outpoint() == funding_txo {
            LockDecision::Keep
        } else if still_held(candidates@, intent.contribution@) {
            LockDecision::Refresh
        } else {
            LockDecision::Settle
        }),
{
    if intent.pre_splice_funding_txo.into_bitcoin_outpoint() == funding_txo {
        return LockDecision::Keep;
    }
    let mut i: usize = 0;
    while i < candidates.len()
        invariant
            i <= candidates@.len(),
            intent.pre_splice_funding_txo.as_outpoint() != funding_txo,
            forall|j: int|
                0 <= j < i ==> !((#[trigger] candidates@[j]).contribution matches Some(c)
                    && same_splice(c@, intent.contribution@)),
        decreases candidates@.len() - i,
    {
        if let Some(c) = &candidates[i].contribution {
            if is_same_splice(c, &intent.contribution) {
                assert(candidates@[i as int].contribution matches Some(c) && same_splice(
                    c@,
                    intent.contribution@,
                ));
                return LockDecision::Refresh;
            }
        }
        i += 1;
    }
    LockDecision::Settle
}

/// The replacement for a pending record whose splice intent is being dropped. A tracked record
/// keeps its payment details with just the intent cleared, if it had one. A bare intent record has
/// nothing to keep and is left for the caller to remove.
pub fn record_with_intent_cleared(existing: PendingPaymentDetails) -> (replacement: Option<
    PendingPaymentDetails,
>)
    ensures
        match existing {
            PendingPaymentDetails::PendingSplice { .. } => replacement is None,
            PendingPaymentDetails::Followed {
                details,
                conflicting_txids,
                candidates,
                splice_intent,
            } => replacement == (if splice_intent is Some {
                Some(
                    PendingPaymentDetails::Followed {
                        details,
                        conflicting_txids,
                        candidates,
                        splice_intent: None,
                    },
                )
            } else {
                None
            }),
        },
{
    match existing {
        PendingPaymentDetails::PendingSplice { .. } => None,
        PendingPaymentDetails::Followed { .. } => {
            let mut cleared = existing;
            if cleared.set_splice_intent(None) {
                Some(cleared)
            } else {
                None
            }
        },
    }
}

/// What [`reconcile`] should do with a persisted intent whose channel and funding are unchanged,
/// decided from the splice rounds of the channel.
#[derive(Clone, Copy, Debug, PartialEq, Eq, Structural)]
pub enum ReconcileDecision {
    /// A splice of ours is still held; leave the intent in place until the splice settles.
    Keep,
    /// No splice of ours is held: the recorded splice died with the restart, so whatever was
    /// reserved for it is released and the intent dropped.
    Lost,
}

/// Whether a splice of ours, or one that is still being negotiated, is held.
pub open spec fn holds_splice(candidates: Seq<SpliceCandidateDetails>) -> bool {
    exists|i: int|
        0 <= i < candidates.len() && (!((#[trigger] candidates[i]).status is Negotiated)
            || candidates[i].contribution is Some)
}

/// Decides the startup action for a persisted intent from the channel's splice candidates.
///
/// A round short of `Negotiated` resumes on its own. A negotiated candidate carrying a local
/// contribution is a splice of ours that is seen through to lock, even one negotiated at a
/// different feerate than a recorded fee bump asked for. Without one, only counterparty rounds (or
/// nothing) survived: the recorded splice is gone.
pub fn decide_reconcile(candidates: &[SpliceCandidateDetails]) -> (decision: ReconcileDecision)
    ensures
        decision == (if holds_splice(candidates@) {
            ReconcileDecision::Keep
        } else {
            ReconcileDecision::Lost
        }),
{
    let mut i: usize = 0;
    while i < candidates.len()
        invariant
            i <= candidates@.len(),
            forall|j: int|
                0 <= j < i ==> (#[trigger] candidates@[j]).status is Negotiated
                    && candidates@[j].contribution is None,
        decreases candidates@.len() - i,
    {
        let negotiated = matches!(candidates[i].status, SpliceCandidateStatus::Negotiated { .. });
        if !negotiated || candidates[i].contribution.is_some() {
            assert(!(candidates@[i as int].status is Negotiated)
                || candidates@[i as int].contribution is Some);
            return ReconcileDecision::Keep;
        }
        i += 1;
    }
    ReconcileDecision::Lost
}

/// What this node contributes to the given rounds.
pub open spec fn held_contributions(candidates: Seq<SpliceCandidateDetails>) -> Seq<
    ContributionView,
>
    decreases candidates.len(),
{
    if candidates.len() == 0 {
        Seq::empty()
    } else {
        match candidates.last().contribution {
            Some(c) => held_contributions(candidates.drop_last()).push(c@),
            None => held_contributions(candidates.drop_last()),
        }
    }
}

/// What this node contributes to the given rounds, and to the round that a fee bump was built
/// from.
pub open spec fn claimants_of(
    candidates: Seq<SpliceCandidateDetails>,
    prior: Option<ContributionView>,
) -> Seq<ContributionView> {
    match prior {
        Some(p) => held_contributions(candidates).push(p),
        None => held_contributions(candidates),
    }
}

/// What an optional contribution moves.
pub open spec fn contribution_view(contribution: Option<&FundingContribution>) -> Option<
    ContributionView,
> {
    match contribution {
        Some(c) => Some(c@),
        None => None,
    }
}

fn claimants<'a>(
    candidates: &'a [SpliceCandidateDetails],
    prior: Option<&'a FundingContribution>,
) -> (found: Vec<&'a FundingContribution>)
    ensures
        contributions_view(found@) == claimants_of(candidates@, contribution_view(prior)),
{
    let mut found: Vec<&FundingContribution> = Vec::new();
    let mut i: usize = 0;
    assert(contributions_view(found@) =~= held_contributions(candidates@.subrange(0, 0)));
    while i < candidates.len()
        invariant
            i <= candidates@.len(),
            contributions_view(found@) == held_contributions(candidates@.subrange(0, i as int)),
        decreases candidates@.len() - i,
    {
        let ghost before = found@;
        assert(candidates@.subrange(0, i + 1).drop_last() =~= candidates@.subrange(0, i as int));
        if let Some(c) = &candidates[i].contribution {
            found.push(c);
            assert(contributions_view(found@) =~= contributions_view(before).push(c@));
        }
        i += 1;
    }
    assert(candidates@.subrange(0, i as int) =~= candidates@);
    if let Some(p) = prior {
        let ghost before = found@;
        found.push(p);
        assert(contributions_view(found@) =~= contributions_view(before).push(p@));
    }
    found
}

/// The inputs `contribution` reserved that no candidate's own contribution still claims: extras a
/// splice attempt lost with the restart had reserved. A counterparty-only round carries no
/// contribution and claims nothing.
pub fn unclaimed_inputs(
    contribution: &FundingContribution,
    candidates: &[SpliceCandidateDetails],
) -> (inputs: Vec<OutPoint>)
    ensures
        inputs@ == free_inputs(contribution@.inputs, held_contributions(candidates@)),
{
    let found = claimants(candidates, None);
    unclaimed_parts(contribution, &found).0
}

/// What the wallet is asked to let go of: outpoints to unlock, and outputs whose addresses to free.
#[derive(Debug)]
pub struct Release {
    pub inputs: Vec<OutPoint>,
    pub outputs: Vec<TxOut>,
}

/// Whether a release lets go of exactly what no other contribution claims.
pub open spec fn releases(
    release: Option<Release>,
    contribution: ContributionView,
    claimants: Seq<ContributionView>,
) -> bool {
    let inputs = free_inputs(contribution.inputs, claimants);
    let outputs = free_outputs(all_outputs(contribution), claimants);
    match release {
        Some(r) => {
            &&& inputs.len() > 0 || outputs.len() > 0
            &&& r.inputs@ == inputs
            &&& crate::payment::outputs_view(r.outputs@) == outputs
        },
        None => inputs.len() == 0 && outputs.len() == 0,
    }
}

/// What to release of a contribution that is going nowhere, short of what another contribution
/// claims as well: a splice candidate held for the channel, or the round a fee bump was built from
/// (`prior`). A fee bump reuses that round's inputs and change address; released along with the
/// bump, they would be free for other spends while the round can still confirm.
pub fn release_contribution(
    contribution: &FundingContribution,
    candidates: &[SpliceCandidateDetails],
    prior: Option<&FundingContribution>,
) -> (release: Option<Release>)
    ensures
        releases(
            release,
            contribution@,
            claimants_of(candidates@, contribution_view(prior)),
        ),
{
    let found = claimants(candidates, prior);
    let (inputs, outputs) = unclaimed_parts(contribution, &found);
    if inputs.is_empty() && outputs.is_empty() {
        None
    } else {
        Some(Release { inputs, outputs })
    }
}

/// What [`reconcile`] asks for.
#[derive(Debug)]
pub enum ReconcileAction {
    /// The record carries no intent.
    Skip,
    /// The channel is gone: release the given parts, if any, and clear the intent.
    DropClosed(Option<Release>),
    /// The funding moved on while the node was down: settle the channel's intents against it.
    SettleSuperseded(LdkOutPoint),
    /// The channel has no funding; leave the intent.
    AwaitFunding,
    /// A splice of ours is held: unlock the inputs it no longer uses.
    Keep(Vec<OutPoint>),
    /// The splice did not survive: release the given parts, if any, and clear the intent.
    DropLost(Option<Release>),
}

/// What the restart of a node means for a recorded splice, given its channel as it is listed now.
///
/// When the channel is gone, what the wallet holds for the intent is released only while no
/// recorded round exists: a recorded round is either spent by the close or returned once the close
/// matures.
pub fn reconcile(record: &PendingPaymentDetails, channel: Option<&ChannelState>) -> (action:
    ReconcileAction)
    ensures
        match record.intent() {
            None => action is Skip,
            Some(intent) => match channel {
                None => action matches ReconcileAction::DropClosed(release) && (if
                record.spec_candidates().len() == 0 {
                    releases(release, intent.contribution, Seq::empty())
                } else {
                    release is None
                }),
                Some(c) => if c.funding_txo == Some(intent.pre_splice_funding_txo) {
                    if holds_splice(c.candidates@) {
                        action matches ReconcileAction::Keep(extras) && extras@ == free_inputs(
                            intent.contribution.inputs,
                            held_contributions(c.candidates@),
                        )
                    } else {
                        action matches ReconcileAction::DropLost(release) && releases(
                            release,
                            intent.contribution,
                            held_contributions(c.candidates@),
                        )
                    }
                } else {
                    match c.funding_txo {
                        Some(funding) => action == ReconcileAction::SettleSuperseded(funding),
                        None => action is AwaitFunding,
                    }
                },
            },
        },
{
    let intent = match record.splice_intent() {
        Some(intent) => intent,
        None => {
            return ReconcileAction::Skip;
        },
    };
    let channel = match channel {
        Some(channel) => channel,
        None => {
            let no_rounds = match record {
                PendingPaymentDetails::PendingSplice { .. } => true,
                PendingPaymentDetails::Followed { candidates, .. } => candidates.is_empty(),
            };
            let release = if no_rounds {
                release_contribution(&intent.contribution, &[], None)
            } else {
                None
            };
            return ReconcileAction::DropClosed(release);
        },
    };
    match channel.funding_txo {
        None => {
            return ReconcileAction::AwaitFunding;
        },
        Some(funding) => {
            if !funding.same(&intent.pre_splice_funding_txo) {
                return ReconcileAction::SettleSuperseded(funding);
            }
        },
    }
    match decide_reconcile(channel.candidates.as_slice()) {
        ReconcileDecision::Keep => ReconcileAction::Keep(
            unclaimed_inputs(&intent.contribution, channel.candidates.as_slice()),
        ),
        ReconcileDecision::Lost => ReconcileAction::DropLost(
            release_contribution(&intent.contribution, channel.candidates.as_slice(), None),
        ),
    }
}

/// What a lock asks for on behalf of one record.
#[derive(Debug)]
pub enum SettleAction {
    /// Leave the record alone.
    Keep,
    /// Re-anchor the record's intent to the given funding.
    Reanchor(LdkOutPoint),
    /// Clear the record's intent.
    Clear,
}

/// What the channel's funding having moved on to `funding_txo` means for one of its records, given
/// the channel as it is listed, if it still is.
pub fn settle_superseded(
    record: &PendingPaymentDetails,
    funding_txo: OutPoint,
    channel: Option<&ChannelState>,
) -> (action: SettleAction)
    ensures
        match record.intent() {
            None => action is Keep,
            Some(intent) => {
                let held = match channel {
                    Some(c) => c.candidates@,
                    None => Seq::empty(),
                };
                if intent.pre_splice_funding_txo.as_outpoint() == funding_txo {
                    action is Keep
                } else if still_held(held, intent.contribution) {
                    match channel->0.funding_txo {
                        Some(funding) => action == SettleAction::Reanchor(funding),
                        None => action is Keep,
                    }
                } else {
                    action is Clear
                }
            },
        },
{
    let intent = match record.splice_intent() {
        Some(intent) => intent,
        None => {
            return SettleAction::Keep;
        },
    };
    match channel {
        None => match decide_on_lock(intent, funding_txo, &[]) {
            LockDecision::Keep => SettleAction::Keep,
            LockDecision::Refresh => {
                assert(false);
                SettleAction::Keep
            },
            LockDecision::Settle => SettleAction::Clear,
        },
        Some(c) => match decide_on_lock(intent, funding_txo, c.candidates.as_slice()) {
            LockDecision::Keep => SettleAction::Keep,
            LockDecision::Refresh => match c.funding_txo {
                Some(funding) => SettleAction::Reanchor(funding),
                None => SettleAction::Keep,
            },
            LockDecision::Settle => SettleAction::Clear,
        },
    }
}

/// An intent that was re-anchored.
pub open spec fn reanchored(intent: IntentView, funding: LdkOutPoint) -> IntentView {
    IntentView { pre_splice_funding_txo: funding, ..intent }
}

/// Re-anchors a still-live intent to the funding outpoint it now builds on, but only while the
/// record still carries the intent this decision was made for. Gives the record to write, if any.
pub fn refresh_intent_funding(
    existing: Option<PendingPaymentDetails>,
    intent: &SpliceIntent,
    new_funding_txo: LdkOutPoint,
) -> (replacement: Option<PendingPaymentDetails>)
    ensures
        match existing {
            Some(record) if record.intent() == Some(intent@) && intent.pre_splice_funding_txo
                != new_funding_txo => replacement matches Some(r) && {
                &&& r.same_but_for_intent(record)
                &&& r.intent() == Some(reanchored(intent@, new_funding_txo))
            },
            _ => replacement is None,
        },
{
    let mut record = match existing {
        Some(record) => record,
        None => {
            return None;
        },
    };
    let unchanged = match record.splice_intent() {
        Some(recorded) => recorded.same(intent),
        None => false,
    };
    if !unchanged {
        return None;
    }
    let refreshed = SpliceIntent {
        counterparty_node_id: intent.counterparty_node_id,
        channel_id: intent.channel_id,
        pre_splice_funding_txo: new_funding_txo,
        contribution: intent.contribution.clone(),
        kind: intent.kind.clone(),
    };
    assert(refreshed@ == reanchored(intent@, new_funding_txo));
    if record.set_splice_intent(Some(refreshed)) {
        Some(record)
    } else {
        None
    }
}

/// What clearing an intent asks for.
#[derive(Debug)]
pub enum ClearPlan {
    /// The record is gone, or carries another intent by now: leave it.
    Leave,
    /// Write this record in place of the stored one.
    Replace(PendingPaymentDetails),
    /// Drop whatever payment was filed under the record's id, and remove the record.
    RemoveBare,
}

/// Whether a stored intent is the one that an operation was decided for. Without one, any is.
pub open spec fn still_applies(stored: Option<IntentView>, expected: Option<IntentView>) -> bool {
    stored is Some && (expected is Some ==> stored == expected)
}

fn applies(record: &PendingPaymentDetails, expected: Option<&SpliceIntent>) -> (yes: bool)
    ensures
        yes == still_applies(
            record.intent(),
            match expected {
                Some(e) => Some(e@),
                None => None,
            },
        ),
{
    match record.splice_intent() {
        Some(stored) => match expected {
            Some(e) => stored.same(e),
            None => true,
        },
        None => false,
    }
}

/// How to clear the persisted intent behind a splice that settled, but only while the stored
/// intent is the expected one (any, if none is given): a mismatch means a fee bump took over the
/// record in the meantime, and its intent must stay. A tracked record stays, with the intent
/// cleared, so its payment keeps graduating. A bare intent record is removed.
pub fn clear_persisted_intent(
    existing: Option<PendingPaymentDetails>,
    expected: Option<&SpliceIntent>,
) -> (plan: ClearPlan)
    ensures
        match existing {
            None => plan is Leave,
            Some(record) => if !still_applies(
                record.intent(),
                match expected {
                    Some(e) => Some(e@),
                    None => None,
                },
            ) {
                plan is Leave
            } else {
                match record {
                    PendingPaymentDetails::PendingSplice { .. } => plan is RemoveBare,
                    PendingPaymentDetails::Followed {
                        details,
                        conflicting_txids,
                        candidates,
                        splice_intent,
                    } => plan == ClearPlan::Replace(
                        PendingPaymentDetails::Followed {
                            details,
                            conflicting_txids,
                            candidates,
                            splice_intent: None,
                        },
                    ),
                }
            },
        },
{
    let record = match existing {
        Some(record) => record,
        None => {
            return ClearPlan::Leave;
        },
    };
    if !applies(&record, expected) {
        return ClearPlan::Leave;
    }
    match record_with_intent_cleared(record) {
        Some(replacement) => ClearPlan::Replace(replacement),
        None => ClearPlan::RemoveBare,
    }
}

/// Whether a record found under the id of a bare intent that is being removed may go: it is still
/// bare, and still carries the expected intent (any, if none is given).
pub fn may_remove_bare(record: &PendingPaymentDetails, expected: Option<&SpliceIntent>) -> (yes: bool)
    ensures
        yes == (record is PendingSplice && still_applies(
            record.intent(),
            match expected {
                Some(e) => Some(e@),
                None => None,
            },
        )),
{
    record.details().is_none() && applies(record, expected)
}

/// The intent that the first record of an id carries, if there is one.
pub open spec fn intent_under(records: Seq<PendingPaymentDetails>, id: PaymentId) -> Option<
    IntentView,
>
    decreases records.len(),
{
    if records.len() == 0 {
        None
    } else if records[0].spec_id() == id {
        records[0].intent()
    } else {
        intent_under(records.drop_first(), id)
    }
}

fn find_intent(records: &[PendingPaymentDetails], id: PaymentId) -> (intent: Option<SpliceIntent>)
    ensures
        crate::payment::intent_view(intent) == intent_under(records@, id),
{
    let mut i: usize = 0;
    assert(records@.subrange(0, records@.len() as int) =~= records@);
    while i < records.len()
        invariant
            i <= records@.len(),
            intent_under(records@, id) == intent_under(
                records@.subrange(i as int, records@.len() as int),
                id,
            ),
        decreases records@.len() - i,
    {
        let ghost rest = records@.subrange(i as int, records@.len() as int);
        if records[i].id() == id {
            return match records[i].splice_intent() {
                Some(intent) => Some(intent.clone()),
                None => None,
            };
        }
        assert(rest.drop_first() =~= records@.subrange(i + 1, records@.len() as int));
        i += 1;
    }
    None
}

/// What persisting an intent asks for.
#[derive(Debug)]
pub enum PersistPlan {
    /// Put the intent behind the record of this id. The record carried the other intent before, if
    /// any, which is put back where the hand-off fails.
    Update(PaymentId, Option<SpliceIntent>),
    /// Write a bare intent under a fresh id.
    Insert,
}

/// How to persist an intent before its contribution is handed over: in a record of its own, or in
/// that of the round it replaces. A splice that would be recorded beside an intent anchored at
/// another funding is refused.
pub fn persist_intent(
    intent: &SpliceIntent,
    records: &[PendingPaymentDetails],
    held_rounds: &[Txid],
) -> (plan: Result<PersistPlan, Error>)
    ensures
        exists|placement: IntentPlacement| #[trigger]
            placed(
                intent.pre_splice_funding_txo,
                intent.kind@,
                records@,
                held_rounds@,
                placement,
            ) && (match placement {
                IntentPlacement::Refused => plan == Err::<PersistPlan, Error>(
                    Error::ChannelSplicingFailed,
                ),
                IntentPlacement::Reuse(id) => plan matches Ok(PersistPlan::Update(reused, prior))
                    && reused == id && crate::payment::intent_view(prior) == intent_under(
                    records@,
                    id,
                ),
                IntentPlacement::Fresh => plan == Ok::<PersistPlan, Error>(PersistPlan::Insert),
            }),
{
    match place_intent(intent, records, held_rounds) {
        IntentPlacement::Refused => Err(Error::ChannelSplicingFailed),
        IntentPlacement::Reuse(id) => Ok(PersistPlan::Update(id, find_intent(records, id))),
        IntentPlacement::Fresh => Ok(PersistPlan::Insert),
    }
}

/// What undoing a persisted intent asks for.
#[derive(Debug)]
pub enum UndoPlan {
    /// Put back the intent that the record of this id carried before, if any.
    Restore(PaymentId, Option<SpliceIntent>),
    /// Remove the record of this id.
    Remove(PaymentId),
}

/// How to undo a splice intent persisted for a hand-off that then failed: `restore` is `None` when
/// a fresh record was created, or what the record's intent was when an existing one was replaced.
pub fn discard_persisted_intent(
    payment_id: PaymentId,
    restore: Option<Option<SpliceIntent>>,
) -> (plan: UndoPlan)
    ensures
        plan == (match restore {
            Some(prior) => UndoPlan::Restore(payment_id, prior),
            None => UndoPlan::Remove(payment_id),
        }),
{
    match restore {
        Some(prior) => UndoPlan::Restore(payment_id, prior),
        None => UndoPlan::Remove(payment_id),
    }
}

/// The stages that a submission goes through once it was allowed, in order.
#[derive(Clone, Copy, Debug, PartialEq, Eq, Structural)]
pub enum SubmitStage {
    /// Settle the intents anchored at a funding the channel has moved past.
    SettleSuperseded,
    /// Write the intent.
    PersistIntent,
    /// Write whatever the wallet holds for the splice.
    PersistStaged,
    /// Hand the contribution over.
    HandOff,
}

/// What follows a stage of a submission.
#[derive(Clone, Copy, Debug, PartialEq, Eq, Structural)]
pub enum SubmitNext {
    /// Go on with this stage.
    Proceed(SubmitStage),
    /// The splice is under way.
    Submitted,
    /// Give up: undo the persisted intent, release the contribution, and report the error.
    Abandon { discard_intent: bool, release: bool, error: Error },
}

/// What follows a stage of a submission, given its outcome. Settling does not fail a submission. A
/// rejected hand-off leaves the release of the contribution to the event that returns it.
pub open spec fn submit_next(stage: SubmitStage, outcome: Result<(), Error>) -> SubmitNext {
    match stage {
        SubmitStage::SettleSuperseded => SubmitNext::Proceed(SubmitStage::PersistIntent),
        SubmitStage::PersistIntent => match outcome {
            Ok(()) => SubmitNext::Proceed(SubmitStage::PersistStaged),
            Err(error) => SubmitNext::Abandon { discard_intent: false, release: true, error },
        },
        SubmitStage::PersistStaged => match outcome {
            Ok(()) => SubmitNext::Proceed(SubmitStage::HandOff),
            Err(error) => SubmitNext::Abandon { discard_intent: true, release: true, error },
        },
        SubmitStage::HandOff => match outcome {
            Ok(()) => SubmitNext::Submitted,
            Err(_) => SubmitNext::Abandon {
                discard_intent: true,
                release: false,
                error: Error::ChannelSplicingFailed,
            },
        },
    }
}

/// What follows a stage of a submission, given its outcome.
pub fn after_submit_stage(stage: SubmitStage, outcome: Result<(), Error>) -> (next: SubmitNext)
    ensures
        next == submit_next(stage, outcome),
{
    match stage {
        SubmitStage::SettleSuperseded => SubmitNext::Proceed(SubmitStage::PersistIntent),
        SubmitStage::PersistIntent => match outcome {
            Ok(()) => SubmitNext::Proceed(SubmitStage::PersistStaged),
            Err(error) => SubmitNext::Abandon { discard_intent: false, release: true, error },
        },
        SubmitStage::PersistStaged => match outcome {
            Ok(()) => SubmitNext::Proceed(SubmitStage::HandOff),
            Err(error) => SubmitNext::Abandon { discard_intent: true, release: true, error },
        },
        SubmitStage::HandOff => match outcome {
            Ok(()) => SubmitNext::Submitted,
            Err(_) => SubmitNext::Abandon {
                discard_intent: true,
                release: false,
                error: Error::ChannelSplicingFailed,
            },
        },
    }
}

/// No splice is handed over unless its intent and whatever the wallet holds for it were made
/// durable right before, and an intent that was persisted is undone on every later failure.
pub proof fn law_no_hand_off_without_a_durable_intent(stage: SubmitStage, outcome: Result<(), Error>)
    ensures
        submit_next(stage, outcome) == SubmitNext::Proceed(SubmitStage::HandOff) ==> stage
            == SubmitStage::PersistStaged && outcome is Ok,
        submit_next(stage, outcome) == SubmitNext::Proceed(SubmitStage::PersistStaged) ==> stage
            == SubmitStage::PersistIntent && outcome is Ok,
        submit_next(stage, outcome) == SubmitNext::Submitted ==> stage == SubmitStage::HandOff
            && outcome is Ok,
        submit_next(stage, outcome) matches SubmitNext::Abandon { discard_intent, release, error }
            ==> {
            &&& discard_intent == (stage == SubmitStage::PersistStaged || stage
                == SubmitStage::HandOff)
            &&& release == (stage != SubmitStage::HandOff)
        },
{
}

/// What a new submission is refused for, along with what of its contribution to release, or where
/// its intent is anchored.
#[derive(Debug)]
pub enum SubmitStart {
    /// Report [`Error::ChannelSplicingFailed`] after releasing the given parts, if any.
    Refuse(SubmissionRefusal, Option<Release>),
    /// Anchor the intent at this funding and begin with [`SubmitStage::SettleSuperseded`].
    Anchor(LdkOutPoint),
}

/// Begins a submission. Its intent is anchored at the channel's funding as it stands now, not at
/// the funding the caller read before building the contribution: an intent anchored at the old one
/// would never be settled by the lock that superseded it.
pub fn begin_submit(
    channel: Option<&ChannelState>,
    pre_splice_funding_txo: LdkOutPoint,
    contribution: &FundingContribution,
    kind: &SpliceKind,
    prior: Option<&FundingContribution>,
) -> (start: SubmitStart)
    ensures
        ({
            let live = match channel {
                Some(c) => c.funding_txo,
                None => None,
            };
            let held = match channel {
                Some(c) => c.candidates@,
                None => Seq::empty(),
            };
            match start {
                SubmitStart::Anchor(funding) => {
                    &&& live == Some(funding)
                    &&& funding == pre_splice_funding_txo || kind@ is Out
                },
                SubmitStart::Refuse(refusal, release) => {
                    &&& match refusal {
                        SubmissionRefusal::ChannelGone => live is None,
                        SubmissionRefusal::BumpedRoundLocked => live is Some && live
                            != Some(pre_splice_funding_txo) && kind@ is Rbf,
                        SubmissionRefusal::InputsMayBeSpent => live is Some && live
                            != Some(pre_splice_funding_txo) && kind@ is In,
                    }
                    &&& releases(
                        release,
                        contribution@,
                        claimants_of(held, contribution_view(prior)),
                    )
                },
            }
        }),
{
    let live = match channel {
        Some(c) => c.funding_txo,
        None => None,
    };
    match check_submission(pre_splice_funding_txo, live, kind) {
        Ok(funding) => SubmitStart::Anchor(funding),
        Err(refusal) => {
            let release = match channel {
                Some(c) => release_contribution(contribution, c.candidates.as_slice(), prior),
                None => release_contribution(contribution, &[], prior),
            };
            SubmitStart::Refuse(refusal, release)
        },
    }
}

/// The in-progress settlement of a splice failure. It snapshots the recorded intent the failure
/// identifies; the record must not change until it is settled.
#[derive(Debug)]
pub struct FailureSettlement {
    /// The record and intent the failure identifies, if any.
    pub matched: Option<(PaymentId, SpliceIntent)>,
}

impl FailureSettlement {
    /// The parameters of the API call behind the splice the failure identifies, if any.
    pub fn originating_kind(&self) -> (kind: Option<&SpliceKind>)
        ensures
            match self.matched {
                Some((_, intent)) => kind == Some(&intent.kind),
                None => kind is None,
            },
    {
        match &self.matched {
            Some((_, intent)) => Some(&intent.kind),
            None => None,
        }
    }
}

/// Begins settling the recorded splice a failure event concerns, snapshotting the intent that
/// `contribution` identifies among those of the channel's records, if any.
pub fn on_negotiation_failed(
    records: &[PendingPaymentDetails],
    contribution: Option<&FundingContribution>,
) -> (settlement: FailureSettlement)
    ensures
        match settlement.matched {
            Some((id, intent)) => {
                &&& contribution matches Some(c) && exists|i: int| #[trigger]
                    is_first_for_splice(records@, i, c@) && records@[i].spec_id() == id && records@[i].intent() == Some(intent@)
            },
            None => contribution matches Some(c) ==> forall|i: int|
                0 <= i < records@.len() ==> !intent_is_for_splice(#[trigger] records@[i], c@),
        },
{
    match record_of_failed_splice(records, contribution) {
        Some((id, intent)) => FailureSettlement { matched: Some((id, intent.clone())) },
        None => FailureSettlement { matched: None },
    }
}

/// Two contributions of which at least one moves anything are the same splice exactly if they spend the
/// same outpoints and pay the same amounts to the same scripts. Two that move nothing are the same only
/// if they agree in their change and their fees too.
pub proof fn law_a_splice_is_what_it_moves(a: FundingContribution, b: FundingContribution)
    ensures
        a.inputs@.len() > 0 || a.outputs@.len() > 0 || b.inputs@.len() > 0 || b.outputs@.len() > 0
            ==> (same_splice(a@, b@) <==> a.inputs@.len() == b.inputs@.len() && (forall|k: int|
            0 <= k < a.inputs@.len() ==> (#[trigger] a.inputs@[k]).txid == b.inputs@[k].txid
                && a.inputs@[k].vout == b.inputs@[k].vout) && a.outputs@.len() == b.outputs@.len()
            && (forall|k: int|
            0 <= k < a.outputs@.len() ==> (#[trigger] a.outputs@[k]).value_sats
                == b.outputs@[k].value_sats && a.outputs@[k].script_pubkey@
                == b.outputs@[k].script_pubkey@)),
        a.inputs@.len() == 0 && a.outputs@.len() == 0 && b.inputs@.len() == 0 && b.outputs@.len()
            == 0 ==> (same_splice(a@, b@) <==> a.estimated_fee_sats == b.estimated_fee_sats
            && a.feerate_sat_per_kwu == b.feerate_sat_per_kwu && (match (
            a.change_output,
            b.change_output,
        ) {
            (Some(x), Some(y)) => x.value_sats == y.value_sats && x.script_pubkey@
                == y.script_pubkey@,
            (None, None) => true,
            _ => false,
        })),
{
    crate::payment::law_outputs_are_told_apart(a.outputs@, b.outputs@);
    crate::payment::law_contributions_are_told_apart(a, b);
    let alike = a.inputs@.len() == b.inputs@.len() && forall|k: int|
        0 <= k < a.inputs@.len() ==> (#[trigger] a.inputs@[k]).txid == b.inputs@[k].txid
            && a.inputs@[k].vout == b.inputs@[k].vout;
    if alike {
        assert forall|k: int| 0 <= k < a.inputs@.len() implies a.inputs@[k] == b.inputs@[k] by {
            assert(a.inputs@[k].txid == b.inputs@[k].txid);
        }
        assert(a.inputs@ =~= b.inputs@);
    }
    assert(a.inputs@.len() == 0 && b.inputs@.len() == 0 ==> a.inputs@ =~= b.inputs@);
}

/// A failure is settled for the splice that failed: the intent that is matched asked for the very outputs
/// and inputs of the failed contribution, and no intent before it did.
pub proof fn law_failures_are_matched_by_what_was_moved(
    records: Seq<PendingPaymentDetails>,
    i: int,
    failed: FundingContribution,
    intent: SpliceIntent,
)
    requires
        is_first_for_splice(records, i, failed@),
        records[i].intent() == Some(intent@),
        failed.inputs@.len() > 0 || failed.outputs@.len() > 0,
    ensures
        intent.contribution.inputs@ == failed.inputs@,
        crate::payment::pay_alike(intent.contribution.outputs@, failed.outputs@),
        forall|j: int, other: SpliceIntent|
            0 <= j < i && (#[trigger] records[j]).intent() == Some(#[trigger] other@) ==> !(
            other.contribution.inputs@ == failed.inputs@ && crate::payment::pay_alike(
                other.contribution.outputs@,
                failed.outputs@,
            )),
{
    crate::payment::law_outputs_are_told_apart(intent.contribution.outputs@, failed.outputs@);
    assert forall|j: int, other: SpliceIntent|
        0 <= j < i && (#[trigger] records[j]).intent() == Some(#[trigger] other@) implies !(
    other.contribution.inputs@ == failed.inputs@ && crate::payment::pay_alike(
        other.contribution.outputs@,
        failed.outputs@,
    )) by {
        assert(!intent_is_for_splice(records[j], failed@));
        crate::payment::law_outputs_are_told_apart(other.contribution.outputs@, failed.outputs@);
    }
}

/// There is one first record of a splice at most, and there is one where any intent is for the splice.
pub proof fn law_a_recorded_splice_is_found(
    records: Seq<PendingPaymentDetails>,
    contribution: ContributionView,
    i: int,
    j: int,
)
    ensures
        is_first_for_splice(records, i, contribution) && is_first_for_splice(
            records,
            j,
            contribution,
        ) ==> i == j,
        0 <= i < records.len() && (records[i].intent() matches Some(intent) && same_splice(
            intent.contribution,
            contribution,
        )) ==> exists|k: int| k <= i && #[trigger] is_first_for_splice(records, k, contribution),
{
    if 0 <= i < records.len() && intent_is_for_splice(records[i], contribution) {
        lemma_first_for_splice(records, contribution, i);
    }
}

proof fn lemma_first_for_splice(
    records: Seq<PendingPaymentDetails>,
    contribution: ContributionView,
    i: int,
)
    requires
        0 <= i < records.len(),
        intent_is_for_splice(records[i], contribution),
    ensures
        exists|k: int| k <= i && #[trigger] is_first_for_splice(records, k, contribution),
    decreases i,
{
    if exists|j: int| 0 <= j < i && intent_is_for_splice(#[trigger] records[j], contribution) {
        let j = choose|j: int|
            0 <= j < i && intent_is_for_splice(#[trigger] records[j], contribution);
        lemma_first_for_splice(records, contribution, j);
    } else {
        assert(is_first_for_splice(records, i, contribution));
    }
}

proof fn lemma_filter_members<T>(s: Seq<T>, keep: spec_fn(T) -> bool, x: T)
    ensures
        s.filter(keep).contains(x) <==> s.contains(x) && keep(x),
    decreases s.len(),
{
    reveal(Seq::filter);
    let kept = s.filter(keep);
    if s.len() > 0 {
        let front = s.drop_last();
        let before = front.filter(keep);
        lemma_filter_members(front, keep, x);
        if before.contains(x) {
            let i = choose|i: int| 0 <= i < before.len() && before[i] == x;
            assert(kept[i] == x);
        }
        if front.contains(x) {
            let i = choose|i: int| 0 <= i < front.len() && front[i] == x;
            assert(s[i] == x);
        }
        if s.contains(x) && !front.contains(x) {
            let i = choose|i: int| 0 <= i < s.len() && s[i] == x;
            if i < front.len() {
                assert(front[i] == x);
            }
            if keep(x) {
                assert(kept[before.len() as int] == x);
            }
        }
        if kept.contains(x) && !before.contains(x) {
            let i = choose|i: int| 0 <= i < kept.len() && kept[i] == x;
            if i < before.len() {
                assert(before[i] == x);
            }
            assert(s[s.len() - 1] == x);
        }
    }
}

/// The free inputs of a contribution are exactly those of its inputs that no other contribution spends.
pub proof fn law_inputs_are_free_unless_spent_elsewhere(
    inputs: Seq<OutPoint>,
    claimants: Seq<ContributionView>,
    outpoint: OutPoint,
)
    ensures
        free_inputs(inputs, claimants).contains(outpoint) <==> inputs.contains(outpoint)
            && forall|i: int, k: int|
            #![trigger claimants[i].inputs[k]]
            0 <= i < claimants.len() && 0 <= k < claimants[i].inputs.len()
                ==> claimants[i].inputs[k] != outpoint,
{
    lemma_filter_members(inputs, |o: OutPoint| !input_claimed(claimants, o), outpoint);
    let untouched = forall|i: int, k: int|
        #![trigger claimants[i].inputs[k]]
        0 <= i < claimants.len() && 0 <= k < claimants[i].inputs.len() ==> claimants[i].inputs[k]
            != outpoint;
    if input_claimed(claimants, outpoint) {
        let i = choose|i: int|
            0 <= i < claimants.len() && (#[trigger] claimants[i]).inputs.contains(outpoint);
        let k = choose|k: int|
            0 <= k < claimants[i].inputs.len() && claimants[i].inputs[k] == outpoint;
        assert(claimants[i].inputs[k] == outpoint);
        assert(!untouched);
    } else {
        assert forall|i: int, k: int|
            #![trigger claimants[i].inputs[k]]
            0 <= i < claimants.len() && 0 <= k < claimants[i].inputs.len() implies claimants[i].inputs[k]
            != outpoint by {
            if claimants[i].inputs[k] == outpoint {
                assert(claimants[i].inputs.contains(outpoint));
            }
        }
    }
}

/// The free outputs of a contribution are exactly those that it pays, its change included, to scripts that
/// no other contribution pays, with its change included too. The amounts do not matter for that.
pub proof fn law_outputs_are_free_unless_paid_elsewhere(
    contribution: ContributionView,
    claimants: Seq<ContributionView>,
    output: TxOutView,
)
    ensures
        free_outputs(all_outputs(contribution), claimants).contains(output) <==> (
        contribution.outputs.contains(output) || contribution.change_output == Some(output))
            && (forall|i: int, k: int|
            #![trigger claimants[i].outputs[k]]
            0 <= i < claimants.len() && 0 <= k < claimants[i].outputs.len()
                ==> claimants[i].outputs[k].script_pubkey != output.script_pubkey) && (forall|
            i: int,
        |
            0 <= i < claimants.len() ==> ((#[trigger] claimants[i]).change_output matches Some(
                change,
            ) ==> change.script_pubkey != output.script_pubkey)),
{
    let all = all_outputs(contribution);
    lemma_filter_members(
        all,
        |o: TxOutView| !script_claimed(claimants, o.script_pubkey),
        output,
    );
    if contribution.outputs.contains(output) {
        let k = choose|k: int|
            0 <= k < contribution.outputs.len() && contribution.outputs[k] == output;
        assert(all[k] == output);
    }
    if contribution.change_output == Some(output) {
        assert(all[contribution.outputs.len() as int] == output);
    }
    if all.contains(output) {
        let k = choose|k: int| 0 <= k < all.len() && all[k] == output;
        if k < contribution.outputs.len() {
            assert(contribution.outputs[k] == output);
        }
    }
    let script = output.script_pubkey;
    if script_claimed(claimants, script) {
        let i = choose|i: int| 0 <= i < claimants.len() && pays(#[trigger] claimants[i], script);
        let c = claimants[i];
        let k = choose|k: int|
            0 <= k < all_outputs(c).len() && (#[trigger] all_outputs(c)[k]).script_pubkey == script;
        if k < c.outputs.len() {
            assert(claimants[i].outputs[k].script_pubkey == script);
        } else {
            assert(claimants[i].change_output == Some(all_outputs(c)[k]));
        }
    } else {
        assert forall|i: int, k: int|
            #![trigger claimants[i].outputs[k]]
            0 <= i < claimants.len() && 0 <= k < claimants[i].outputs.len() implies claimants[i].outputs[k].script_pubkey
            != script by {
            assert(!pays(claimants[i], script));
            assert(all_outputs(claimants[i])[k] == claimants[i].outputs[k]);
        }
        assert forall|i: int| 0 <= i < claimants.len() implies ((
        #[trigger] claimants[i]).change_output matches Some(change) ==> change.script_pubkey
            != script) by {
            assert(!pays(claimants[i], script));
            if let Some(change) = claimants[i].change_output {
                assert(all_outputs(claimants[i])[claimants[i].outputs.len() as int] == change);
            }
        }
    }
}

/// A release lets go of exactly the inputs and outputs of a contribution that nothing else uses; there is
/// none where nothing is left to let go of.
pub proof fn law_a_release_is_what_nothing_else_uses(
    release: Option<Release>,
    contribution: ContributionView,
    claimants: Seq<ContributionView>,
    outpoint: OutPoint,
    output: TxOutView,
)
    requires
        releases(release, contribution, claimants),
    ensures
        (release matches Some(r) && r.inputs@.contains(outpoint)) <==> free_inputs(
            contribution.inputs,
            claimants,
        ).contains(outpoint),
        (release matches Some(r) && crate::payment::outputs_view(r.outputs@).contains(output))
            <==> free_outputs(all_outputs(contribution), claimants).contains(output),
        release matches Some(r) ==> r.inputs@.len() > 0 || r.outputs@.len() > 0,
{
}

/// Without anything else that uses its parts, a release lets go of a whole contribution.
pub proof fn law_a_splice_on_its_own_is_released_whole(
    release: Option<Release>,
    contribution: ContributionView,
)
    requires
        releases(release, contribution, Seq::empty()),
    ensures
        release matches Some(r) ==> r.inputs@ == contribution.inputs && crate::payment::outputs_view(
            r.outputs@,
        ) == all_outputs(contribution),
        release is None ==> contribution.inputs.len() == 0 && contribution.outputs.len() == 0
            && contribution.change_output is None,
{
    law_all_parts_are_free_without_claimants(contribution);
}

/// Whether a round is of ours, or still under negotiation, is found wherever it stands among the rounds:
/// a round that waits, is negotiated or awaits signatures always is, a negotiated one only with a
/// contribution of ours.
pub proof fn law_held_splices_are_found(
    a: Seq<SpliceCandidateDetails>,
    b: Seq<SpliceCandidateDetails>,
    round: SpliceCandidateDetails,
)
    ensures
        holds_splice(a + b) == (holds_splice(a) || holds_splice(b)),
        !holds_splice(Seq::empty()),
        holds_splice(seq![round]) == (match round.status {
            SpliceCandidateStatus::WaitingOnLock => true,
            SpliceCandidateStatus::Negotiating => true,
            SpliceCandidateStatus::AwaitingSignatures { .. } => true,
            SpliceCandidateStatus::Negotiated { .. } => round.contribution is Some,
        }),
{
    if holds_splice(a) {
        let i = choose|i: int|
            0 <= i < a.len() && (!((#[trigger] a[i]).status is Negotiated)
                || a[i].contribution is Some);
        assert((a + b)[i] == a[i]);
    }
    if holds_splice(b) {
        let i = choose|i: int|
            0 <= i < b.len() && (!((#[trigger] b[i]).status is Negotiated)
                || b[i].contribution is Some);
        assert((a + b)[a.len() + i] == b[i]);
    }
    if holds_splice(a + b) {
        let i = choose|i: int|
            0 <= i < (a + b).len() && (!((#[trigger] (a + b)[i]).status is Negotiated) || (a
                + b)[i].contribution is Some);
        if i < a.len() {
            assert(a[i] == (a + b)[i]);
        } else {
            assert(b[i - a.len()] == (a + b)[i]);
        }
    }
    assert(seq![round][0] == round);
}

/// A splice is still held exactly if some round carries it as our contribution, in whatever state that
/// round is and wherever it stands.
pub proof fn law_a_carried_splice_is_still_held(
    a: Seq<SpliceCandidateDetails>,
    b: Seq<SpliceCandidateDetails>,
    round: SpliceCandidateDetails,
    contribution: ContributionView,
)
    ensures
        still_held(a + b, contribution) == (still_held(a, contribution) || still_held(
            b,
            contribution,
        )),
        !still_held(Seq::empty(), contribution),
        still_held(seq![round], contribution) == (round.contribution matches Some(c)
            && same_splice(c@, contribution)),
{
    if still_held(a, contribution) {
        let i = choose|i: int|
            0 <= i < a.len() && ((#[trigger] a[i]).contribution matches Some(c) && same_splice(
                c@,
                contribution,
            ));
        assert((a + b)[i] == a[i]);
    }
    if still_held(b, contribution) {
        let i = choose|i: int|
            0 <= i < b.len() && ((#[trigger] b[i]).contribution matches Some(c) && same_splice(
                c@,
                contribution,
            ));
        assert((a + b)[a.len() + i] == b[i]);
    }
    if still_held(a + b, contribution) {
        let i = choose|i: int|
            0 <= i < (a + b).len() && ((#[trigger] (a + b)[i]).contribution matches Some(c)
                && same_splice(c@, contribution));
        if i < a.len() {
            assert(a[i] == (a + b)[i]);
        } else {
            assert(b[i - a.len()] == (a + b)[i]);
        }
    }
    assert(seq![round][0] == round);
}

/// What this node contributes to some rounds is what it contributes to each of them, in their order, and
/// what is claimed besides is the round that a bump was built from.
pub proof fn law_all_contributions_are_claimed(
    a: Seq<SpliceCandidateDetails>,
    b: Seq<SpliceCandidateDetails>,
    round: SpliceCandidateDetails,
    prior: ContributionView,
)
    ensures
        held_contributions(a + b) == held_contributions(a) + held_contributions(b),
        held_contributions(Seq::empty()).len() == 0,
        held_contributions(seq![round]) == (match round.contribution {
            Some(c) => seq![c@],
            None => Seq::empty(),
        }),
        claimants_of(a, Some(prior)) == held_contributions(a) + seq![prior],
        claimants_of(a, None) == held_contributions(a),
    decreases b.len(),
{
    reveal_with_fuel(held_contributions, 2);
    assert(seq![round].drop_last() =~= Seq::empty());
    assert(held_contributions(seq![round]) =~= (match round.contribution {
        Some(c) => seq![c@],
        None => Seq::empty(),
    }));
    assert(claimants_of(a, Some(prior)) =~= held_contributions(a) + seq![prior]);
    if b.len() == 0 {
        assert(a + b =~= a);
        assert(held_contributions(a + b) =~= held_contributions(a) + held_contributions(b));
    } else {
        law_all_contributions_are_claimed(a, b.drop_last(), round, prior);
        assert((a + b).drop_last() =~= a + b.drop_last());
        assert((a + b).last() == b.last());
        assert(held_contributions(a + b) =~= held_contributions(a) + held_contributions(b));
    }
}

/// A record that carries an intent concerns the channel of its intent and no other. One without concerns
/// the channels that its payment funds together with their peers, and a bare record always has an intent.
pub proof fn law_records_concern_the_channels_they_are_of(
    record: PendingPaymentDetails,
    counterparty_node_id: PublicKey,
    channel_id: ChannelId,
)
    ensures
        record.intent() matches Some(i) ==> (concerns(record, counterparty_node_id, channel_id)
            <==> i.channel_id == channel_id && i.counterparty_node_id == counterparty_node_id),
        intends_splice_of(record, counterparty_node_id, channel_id) <==> record.intent() is Some
            && concerns(record, counterparty_node_id, channel_id),
        record.intent() is None ==> (concerns(record, counterparty_node_id, channel_id) <==> (
        record matches PendingPaymentDetails::Followed { details, .. } && details.kind matches
            PaymentKind::Onchain {
            tx_type: Some(TransactionType::InteractiveFunding { channels }),
            ..
        } && exists|k: int|
            0 <= k < channels@.len() && (#[trigger] channels@[k]).channel_id == channel_id
                && channels@[k].counterparty_node_id == counterparty_node_id)),
{
    if let PendingPaymentDetails::Followed { details, .. } = record {
        if let PaymentKind::Onchain {
            tx_type: Some(TransactionType::InteractiveFunding { channels }),
            ..
        } = details.kind {
            let wanted = Channel { counterparty_node_id, channel_id };
            if channels@.contains(wanted) {
                let k = choose|k: int| 0 <= k < channels@.len() && channels@[k] == wanted;
                assert(channels@[k].channel_id == channel_id);
            }
            if exists|k: int|
                0 <= k < channels@.len() && (#[trigger] channels@[k]).channel_id == channel_id
                    && channels@[k].counterparty_node_id == counterparty_node_id {
                let k = choose|k: int|
                    0 <= k < channels@.len() && (#[trigger] channels@[k]).channel_id == channel_id
                        && channels@[k].counterparty_node_id == counterparty_node_id;
                assert(channels@[k] == wanted);
            }
        }
    }
}

/// A submission is refused exactly if some record's intent builds on another funding. Otherwise a splice
/// gets a record of its own. A bump joins the first record that tracks a round which is still held, or
/// else the first one with an intent, and gets its own only where there is neither.
pub proof fn law_only_bumps_share_a_record(
    anchor: LdkOutPoint,
    kind: SpliceKindView,
    records: Seq<PendingPaymentDetails>,
    held_rounds: Seq<Txid>,
    placement: IntentPlacement,
    other: IntentPlacement,
)
    requires
        placed(anchor, kind, records, held_rounds, placement),
    ensures
        placement is Refused <==> exists|i: int|
            0 <= i < records.len() && ((#[trigger] records[i]).intent() matches Some(intent)
                && intent.pre_splice_funding_txo != anchor),
        !(kind is Rbf) && !(placement is Refused) ==> placement is Fresh,
        placement matches IntentPlacement::Reuse(id) ==> kind is Rbf && exists|i: int|
            0 <= i < records.len() && (#[trigger] records[i]).spec_id() == id && (
            tracks_round(records[i], held_rounds) || (records[i].intent() is Some && forall|j: int|
                0 <= j < records.len() ==> !tracks_round(#[trigger] records[j], held_rounds))),
        kind is Rbf && placement is Fresh ==> forall|i: int|
            0 <= i < records.len() ==> !tracks_round(#[trigger] records[i], held_rounds)
                && records[i].intent() is None,
        placed(anchor, kind, records, held_rounds, other) ==> other == placement,
{
    let holds_round = |r: PendingPaymentDetails| tracks_round(r, held_rounds);
    let holds_intent = |r: PendingPaymentDetails| r.intent() is Some;
    let elsewhere = exists|i: int|
        0 <= i < records.len() && anchored_elsewhere(#[trigger] records[i], anchor);
    if elsewhere {
        let i = choose|i: int|
            0 <= i < records.len() && anchored_elsewhere(#[trigger] records[i], anchor);
        assert(records[i].intent() is Some);
    } else {
        assert forall|i: int| 0 <= i < records.len() implies !((
        #[trigger] records[i]).intent() matches Some(intent) && intent.pre_splice_funding_txo
            != anchor) by {
            assert(!anchored_elsewhere(records[i], anchor));
        }
        if kind is Rbf {
            assert forall|i: int| 0 <= i < records.len() implies holds_round(records[i])
                == tracks_round(#[trigger] records[i], held_rounds) && holds_intent(records[i]) == (
            records[i].intent() is Some) by {}
            if exists|i: int| 0 <= i < records.len() && holds_round(#[trigger] records[i]) {
                let i = choose|i: int| #[trigger]
                    is_first(records, i, holds_round) && placement == IntentPlacement::Reuse(
                        records[i].spec_id(),
                    );
                assert(tracks_round(records[i], held_rounds));
            } else if exists|i: int| 0 <= i < records.len() && holds_intent(#[trigger] records[i]) {
                let i = choose|i: int| #[trigger]
                    is_first(records, i, holds_intent) && placement == IntentPlacement::Reuse(
                        records[i].spec_id(),
                    );
                assert(records[i].intent() is Some);
            }
        }
    }
}

/// A record tracks a round exactly if one of its transactions is that of a held round.
pub proof fn law_records_track_the_rounds_they_know(
    record: PendingPaymentDetails,
    held_rounds: Seq<Txid>,
)
    ensures
        tracks_round(record, held_rounds) <==> exists|k: int, h: int|
            #![trigger record.spec_candidates()[k], held_rounds[h]]
            0 <= k < record.spec_candidates().len() && 0 <= h < held_rounds.len()
                && record.spec_candidates()[k].txid == held_rounds[h],
{
    if tracks_round(record, held_rounds) {
        let k = choose|k: int|
            0 <= k < record.spec_candidates().len() && held_rounds.contains(
                (#[trigger] record.spec_candidates()[k]).txid,
            );
        let h = choose|h: int|
            0 <= h < held_rounds.len() && held_rounds[h] == record.spec_candidates()[k].txid;
        assert(record.spec_candidates()[k].txid == held_rounds[h]);
    }
    if exists|k: int, h: int|
        #![trigger record.spec_candidates()[k], held_rounds[h]]
        0 <= k < record.spec_candidates().len() && 0 <= h < held_rounds.len()
            && record.spec_candidates()[k].txid == held_rounds[h] {
        let (k, h) = choose|k: int, h: int|
            #![trigger record.spec_candidates()[k], held_rounds[h]]
            0 <= k < record.spec_candidates().len() && 0 <= h < held_rounds.len()
                && record.spec_candidates()[k].txid == held_rounds[h];
        assert(held_rounds.contains(record.spec_candidates()[k].txid));
    }
}

/// Re-anchoring moves an intent to the new funding and leaves everything else: whose channel it is of, what
/// it contributes, and what was asked for.
pub proof fn law_reanchoring_moves_nothing_but_the_funding(intent: IntentView, funding: LdkOutPoint)
    ensures
        reanchored(intent, funding).pre_splice_funding_txo == funding,
        reanchored(intent, funding).contribution == intent.contribution,
        reanchored(intent, funding).kind == intent.kind,
        reanchored(intent, funding).channel_id == intent.channel_id,
        reanchored(intent, funding).counterparty_node_id == intent.counterparty_node_id,
        reanchored(intent, intent.pre_splice_funding_txo) == intent,
{
}

/// An operation applies to the intent that it was decided for and to no other; one that was decided for
/// any applies wherever there is one.
pub proof fn law_operations_apply_to_their_intent(stored: IntentView, expected: IntentView)
    ensures
        still_applies(Some(stored), Some(expected)) <==> stored == expected,
        still_applies(Some(stored), None),
        !still_applies(None, Some(expected)),
        !still_applies(None, None),
{
}

/// The intent under an id is the one of the first record of that id; there is none without such a record.
pub proof fn law_intents_are_found_by_id(
    records: Seq<PendingPaymentDetails>,
    id: PaymentId,
    i: int,
)
    ensures
        0 <= i < records.len() && records[i].spec_id() == id && (forall|j: int|
            0 <= j < i ==> (#[trigger] records[j]).spec_id() != id) ==> intent_under(records, id)
            == records[i].intent(),
        (forall|j: int| 0 <= j < records.len() ==> (#[trigger] records[j]).spec_id() != id)
            ==> intent_under(records, id) is None,
    decreases records.len(),
{
    if records.len() > 0 {
        let rest = records.drop_first();
        law_intents_are_found_by_id(rest, id, i - 1);
        if records[0].spec_id() != id {
            if 0 <= i < records.len() && (forall|j: int|
                0 <= j < i ==> (#[trigger] records[j]).spec_id() != id) {
                assert forall|j: int| 0 <= j < i - 1 implies (#[trigger] rest[j]).spec_id()
                    != id by {
                    assert(rest[j] == records[j + 1]);
                }
                if i > 0 {
                    assert(rest[i - 1] == records[i]);
                }
            }
            if forall|j: int| 0 <= j < records.len() ==> (#[trigger] records[j]).spec_id() != id {
                assert forall|j: int| 0 <= j < rest.len() implies (#[trigger] rest[j]).spec_id()
                    != id by {
                    assert(rest[j] == records[j + 1]);
                }
            }
        } else {
            if 0 < i < records.len() {
                assert(records[0].spec_id() == id);
            }
        }
    }
}

/// A submission that nothing stops goes through its stages in order and ends submitted. What stops it is
/// reported as it came, but for a rejected hand-off, which is reported as a failed splice; a failure to
/// settle stops nothing.
pub proof fn law_a_submission_goes_through(error: Error)
    ensures
        submit_next(SubmitStage::SettleSuperseded, Ok(())) == SubmitNext::Proceed(
            SubmitStage::PersistIntent,
        ),
        submit_next(SubmitStage::SettleSuperseded, Err(error)) == SubmitNext::Proceed(
            SubmitStage::PersistIntent,
        ),
        submit_next(SubmitStage::PersistIntent, Ok(())) == SubmitNext::Proceed(
            SubmitStage::PersistStaged,
        ),
        submit_next(SubmitStage::PersistStaged, Ok(())) == SubmitNext::Proceed(
            SubmitStage::HandOff,
        ),
        submit_next(SubmitStage::HandOff, Ok(())) == SubmitNext::Submitted,
        submit_next(SubmitStage::PersistIntent, Err(error)) matches SubmitNext::Abandon {
            error: e,
            ..
        } && e == error,
        submit_next(SubmitStage::PersistStaged, Err(error)) matches SubmitNext::Abandon {
            error: e,
            ..
        } && e == error,
        submit_next(SubmitStage::HandOff, Err(error)) matches SubmitNext::Abandon {
            error: e,
            ..
        } && e == Error::ChannelSplicingFailed,
{
}

/// Contributions are told by what they hold, in order.
pub proof fn law_contributions_are_told_in_order(
    contributions: Seq<&FundingContribution>,
    i: int,
    prior: &FundingContribution,
)
    ensures
        contributions_view(contributions).len() == contributions.len(),
        0 <= i < contributions.len() ==> contributions_view(contributions)[i] == contributions[i]@,
        contribution_view(Some(prior)) == Some(prior@),
        contribution_view(None) is None,
{
}

/// Every refusal says what it is for.
pub proof fn law_refusals_say_what_they_are_for()
    ensures
        SubmissionRefusal::ChannelGone.spec_message()@ == "the channel is gone or has no funding"@,
        SubmissionRefusal::BumpedRoundLocked.spec_message()@
            == "the funding moved since the bump was built; its round has locked"@,
        SubmissionRefusal::InputsMayBeSpent.spec_message()@
            == "the funding moved since the splice was built; the locked round may have spent its inputs"@,
{
}

/// What becomes of a submission: it is anchored at the live funding where that is the one it was built
/// against. Where the funding has moved, only a splice that pays out is, for it spends nothing that the
/// round which locked may have spent; and without a funding none is.
pub proof fn law_only_payments_outlive_the_funding(
    requested: LdkOutPoint,
    live: Option<LdkOutPoint>,
    kind: SpliceKind,
    anchor: Result<LdkOutPoint, SubmissionRefusal>,
)
    requires
        call_ensures(check_submission, (requested, live, &kind), anchor),
    ensures
        anchor matches Ok(at) ==> live == Some(at),
        anchor is Ok <==> live == Some(requested) || (live is Some && kind is Out),
        live is None ==> anchor == Err::<LdkOutPoint, SubmissionRefusal>(
            SubmissionRefusal::ChannelGone,
        ),
        live is Some && live != Some(requested) && kind is Rbf ==> anchor == Err::<
            LdkOutPoint,
            SubmissionRefusal,
        >(SubmissionRefusal::BumpedRoundLocked),
        live is Some && live != Some(requested) && kind is In ==> anchor == Err::<
            LdkOutPoint,
            SubmissionRefusal,
        >(SubmissionRefusal::InputsMayBeSpent),
{
}

/// What becomes of an intent when a splice locks: it is kept where the lock is of the funding that it is
/// anchored at, anchored anew where its splice is still being negotiated, and settled otherwise.
pub proof fn law_what_a_lock_does_to_an_intent(
    intent: SpliceIntent,
    funding_txo: OutPoint,
    candidates: &[SpliceCandidateDetails],
    decision: LockDecision,
)
    requires
        call_ensures(decide_on_lock, (&intent, funding_txo, candidates), decision),
    ensures
        ({
            let anchor = intent.pre_splice_funding_txo;
            let kept = anchor.txid == funding_txo.txid && anchor.index == funding_txo.vout;
            &&& decision is Keep <==> kept
            &&& decision is Refresh ==> !kept && still_held(candidates@, intent.contribution@)
            &&& decision is Settle ==> !kept && !still_held(candidates@, intent.contribution@)
        }),
{
}

/// Clearing the intent of a payment that is followed leaves the payment; one that was nothing but an intent
/// has nothing left to be written.
pub proof fn law_clearing_an_intent_leaves_the_payment(
    existing: PendingPaymentDetails,
    replacement: Option<PendingPaymentDetails>,
)
    requires
        call_ensures(record_with_intent_cleared, (existing,), replacement),
    ensures
        existing is PendingSplice ==> replacement is None,
        existing is Followed && existing.intent() is None ==> replacement is None,
        existing is Followed && existing.intent() is Some ==> replacement is Some,
        replacement matches Some(cleared) ==> cleared is Followed && cleared.intent() is None
            && cleared.same_but_for_intent(existing) && cleared.spec_id() == existing.spec_id(),
{
}

/// A splice is lost exactly if the channel negotiates none any more.
pub proof fn law_a_splice_is_lost_when_none_is_negotiated(
    candidates: &[SpliceCandidateDetails],
    decision: ReconcileDecision,
)
    requires
        call_ensures(decide_reconcile, (candidates,), decision),
    ensures
        decision is Keep <==> holds_splice(candidates@),
        decision is Lost <==> !holds_splice(candidates@),
{
}

/// What a restart does with a record: nothing without an intent; an intent whose channel is gone is dropped,
/// and what it reserved is released unless its transactions are followed; one whose channel moved on is
/// settled; and one that is still anchored is kept or dropped by whether the channel still negotiates it.
pub proof fn law_restarts_settle_what_the_channel_forgot(
    record: PendingPaymentDetails,
    channel: Option<&ChannelState>,
    action: ReconcileAction,
)
    requires
        call_ensures(reconcile, (&record, channel), action),
    ensures
        action is Skip <==> record.intent() is None,
        action is DropClosed <==> record.intent() is Some && channel is None,
        record.intent() is Some && channel is None && record.spec_candidates().len() > 0 ==> action
            == ReconcileAction::DropClosed(None),
        record.intent() matches Some(intent) ==> (channel matches Some(c) ==> {
            let anchored = c.funding_txo == Some(intent.pre_splice_funding_txo);
            &&& anchored && holds_splice(c.candidates@) <==> action is Keep
            &&& anchored && !holds_splice(c.candidates@) <==> action is DropLost
            &&& c.funding_txo is None <==> action is AwaitFunding
            &&& !anchored && c.funding_txo is Some ==> action
                == ReconcileAction::SettleSuperseded(c.funding_txo->0)
            &&& action is SettleSuperseded ==> !anchored
        }),
{
}

/// What settling does with an intent that a lock superseded: it is cleared, unless the lock is of its own
/// anchor or its splice is still negotiated, in which case it moves to the funding of the channel.
pub proof fn law_superseded_intents_are_cleared_or_moved(
    record: PendingPaymentDetails,
    funding_txo: OutPoint,
    channel: Option<&ChannelState>,
    action: SettleAction,
)
    requires
        call_ensures(settle_superseded, (&record, funding_txo, channel), action),
    ensures
        record.intent() is None ==> action is Keep,
        action matches SettleAction::Reanchor(funding) ==> channel is Some
            && channel->0.funding_txo == Some(funding),
        record.intent() matches Some(intent) ==> {
            let anchor = intent.pre_splice_funding_txo;
            let same = anchor.txid == funding_txo.txid && anchor.index == funding_txo.vout;
            &&& same ==> action is Keep
            &&& !same && channel is None ==> action is Clear
            &&& !same && channel is Some ==> (action is Clear <==> !still_held(
                channel->0.candidates@,
                intent.contribution,
            ))
            &&& action is Reanchor ==> !same
        },
{
}

/// An intent is anchored anew exactly if it is still the one that is recorded and the funding is another one,
/// and nothing else of the record is changed.
pub proof fn law_only_the_recorded_intent_moves(
    existing: PendingPaymentDetails,
    intent: SpliceIntent,
    new_funding_txo: LdkOutPoint,
    replacement: Option<PendingPaymentDetails>,
)
    requires
        call_ensures(
            refresh_intent_funding,
            (Some(existing), &intent, new_funding_txo),
            replacement,
        ),
    ensures
        replacement is Some <==> existing.intent() == Some(intent@)
            && intent.pre_splice_funding_txo != new_funding_txo,
        replacement matches Some(moved) ==> moved.same_but_for_intent(existing) && moved.intent()
            is Some && moved.intent()->0.pre_splice_funding_txo == new_funding_txo
            && moved.intent()->0.contribution == intent@.contribution && moved.intent()->0.kind
            == intent@.kind && moved.intent()->0.channel_id == intent@.channel_id,
{
}

/// An intent is cleared exactly if it is the one that is meant. A record that is nothing but an intent is
/// removed, and every other one keeps its payment.
pub proof fn law_only_the_meant_intent_is_cleared(
    existing: PendingPaymentDetails,
    expected: SpliceIntent,
    plan: ClearPlan,
    any: ClearPlan,
)
    requires
        call_ensures(clear_persisted_intent, (Some(existing), Some(&expected)), plan),
        call_ensures(clear_persisted_intent, (Some(existing), None), any),
    ensures
        plan is Leave <==> existing.intent() != Some(expected@),
        any is Leave <==> existing.intent() is None,
        plan is RemoveBare <==> existing is PendingSplice && existing.intent() == Some(expected@),
        any is RemoveBare <==> existing is PendingSplice,
        plan matches ClearPlan::Replace(cleared) ==> cleared.intent() is None
            && cleared.same_but_for_intent(existing),
{
}

/// A bare record is removed exactly if it still is one, with the intent that is meant.
pub proof fn law_only_bare_records_are_removed(
    record: PendingPaymentDetails,
    expected: SpliceIntent,
    yes: bool,
    any: bool,
)
    requires
        call_ensures(may_remove_bare, (&record, Some(&expected)), yes),
        call_ensures(may_remove_bare, (&record, None), any),
    ensures
        yes <==> record is PendingSplice && record.intent() == Some(expected@),
        any <==> record is PendingSplice,
{
}

/// An intent that was put in the place of another one is undone by putting that one back, and one that was
/// put in a record of its own by removing the record.
pub proof fn law_undoing_an_intent_restores_what_was_there(
    payment_id: PaymentId,
    prior: Option<SpliceIntent>,
    restored: UndoPlan,
    removed: UndoPlan,
)
    requires
        call_ensures(discard_persisted_intent, (payment_id, Some(prior)), restored),
        call_ensures(discard_persisted_intent, (payment_id, None), removed),
    ensures
        restored == UndoPlan::Restore(payment_id, prior),
        removed == UndoPlan::Remove(payment_id),
{
}

/// A submission begins by anchoring it at the funding of the channel, or is refused for a reason, with what
/// it reserved being released.
pub proof fn law_submissions_begin_at_the_live_funding(
    channel: Option<&ChannelState>,
    requested: LdkOutPoint,
    contribution: FundingContribution,
    kind: SpliceKind,
    prior: Option<&FundingContribution>,
    start: SubmitStart,
)
    requires
        call_ensures(begin_submit, (channel, requested, &contribution, &kind, prior), start),
    ensures
        channel is None || channel->0.funding_txo is None ==> start matches SubmitStart::Refuse(
            SubmissionRefusal::ChannelGone,
            _,
        ),
        channel matches Some(c) ==> (c.funding_txo == Some(requested) ==> start
            == SubmitStart::Anchor(requested)),
        channel matches Some(c) ==> (c.funding_txo matches Some(live) ==> (live != requested ==> {
            &&& kind is Out <==> start == SubmitStart::Anchor(live)
            &&& kind is Rbf ==> (start matches SubmitStart::Refuse(
                SubmissionRefusal::BumpedRoundLocked,
                _,
            ))
            &&& kind is In ==> (start matches SubmitStart::Refuse(
                SubmissionRefusal::InputsMayBeSpent,
                _,
            ))
        })),
{
}

/// Two contributions are found to be the same splice exactly if they spend the same inputs and pay the same
/// amounts to the same scripts, in the same order; fees and change do not matter, unless nothing else is
/// there to tell them apart by.
pub proof fn law_splices_are_compared_by_what_they_move(
    a: FundingContribution,
    b: FundingContribution,
    same: bool,
)
    requires
        call_ensures(is_same_splice, (&a, &b), same),
    ensures
        a.inputs@.len() > 0 || a.outputs@.len() > 0 || b.inputs@.len() > 0 || b.outputs@.len() > 0
            ==> (same <==> a.inputs@ == b.inputs@ && crate::payment::pay_alike(
            a.outputs@,
            b.outputs@,
        )),
        same ==> a.inputs@ == b.inputs@ && crate::payment::pay_alike(a.outputs@, b.outputs@),
        same && a.inputs@.len() == 0 && a.outputs@.len() == 0 ==> a.estimated_fee_sats
            == b.estimated_fee_sats && a.feerate_sat_per_kwu == b.feerate_sat_per_kwu && (
        a.change_output is Some <==> b.change_output is Some),
{
    crate::payment::law_outputs_are_told_apart(a.outputs@, b.outputs@);
    law_a_splice_is_what_it_moves(a, b);
}

/// What is found free of a contribution is what no other contribution spends or pays to.
pub proof fn law_free_parts_are_what_no_other_contribution_uses(
    contribution: FundingContribution,
    claimants: Vec<&FundingContribution>,
    parts: (Vec<OutPoint>, Vec<TxOut>),
    outpoint: OutPoint,
)
    requires
        call_ensures(unclaimed_parts, (&contribution, &claimants), parts),
    ensures
        parts.0@.contains(outpoint) <==> contribution.inputs@.contains(outpoint) && forall|i: int|
            0 <= i < claimants@.len() ==> !(#[trigger] claimants@[i]).inputs@.contains(outpoint),
        crate::payment::outputs_view(parts.1@) == free_outputs(
            all_outputs(contribution@),
            contributions_view(claimants@),
        ),
{
    let others = contributions_view(claimants@);
    law_inputs_are_free_unless_spent_elsewhere(contribution@.inputs, others, outpoint);
    if parts.0@.contains(outpoint) {
        assert forall|i: int| 0 <= i < claimants@.len() implies !(
        #[trigger] claimants@[i]).inputs@.contains(outpoint) by {
            if claimants@[i].inputs@.contains(outpoint) {
                let k = choose|k: int|
                    0 <= k < claimants@[i].inputs@.len() && claimants@[i].inputs@[k] == outpoint;
                assert(others[i].inputs[k] == outpoint);
            }
        }
    }
    if contribution.inputs@.contains(outpoint) && (forall|i: int|
        0 <= i < claimants@.len() ==> !(#[trigger] claimants@[i]).inputs@.contains(outpoint)) {
        assert forall|i: int, k: int|
            #![trigger others[i].inputs[k]]
            0 <= i < others.len() && 0 <= k < others[i].inputs.len() implies others[i].inputs[k]
            != outpoint by {
            assert(!claimants@[i].inputs@.contains(outpoint));
            assert(others[i].inputs == claimants@[i].inputs@);
        }
    }
}

/// A record is found to carry an intent for a channel exactly if its intent is for that channel with that
/// peer.
pub proof fn law_intents_are_found_by_channel_and_peer(
    record: PendingPaymentDetails,
    counterparty_node_id: PublicKey,
    channel_id: ChannelId,
    carries: bool,
    concerned: bool,
)
    requires
        call_ensures(carries_intent_for, (&record, counterparty_node_id, channel_id), carries),
        call_ensures(concerns_channel, (&record, counterparty_node_id, channel_id), concerned),
    ensures
        carries <==> (record.intent() matches Some(i) && i.channel_id == channel_id
            && i.counterparty_node_id == counterparty_node_id),
        carries ==> concerned,
        record.intent() is Some ==> (concerned <==> carries),
{
    law_records_concern_the_channels_they_are_of(record, counterparty_node_id, channel_id);
}

/// An intent is refused exactly while an intent for another funding is recorded; a splice that is no fee bump
/// gets a record of its own; and a fee bump shares the record of the round that it bumps.
pub proof fn law_intents_are_placed_by_their_funding(
    intent: SpliceIntent,
    records: &[PendingPaymentDetails],
    held_rounds: &[Txid],
    placement: IntentPlacement,
)
    requires
        call_ensures(place_intent, (&intent, records, held_rounds), placement),
    ensures
        placement is Refused <==> exists|i: int|
            0 <= i < records@.len() && ((#[trigger] records@[i]).intent() matches Some(other)
                && other.pre_splice_funding_txo != intent.pre_splice_funding_txo),
        placement is Reuse ==> intent.kind is Rbf,
        placement matches IntentPlacement::Reuse(id) ==> exists|i: int|
            0 <= i < records@.len() && (#[trigger] records@[i]).spec_id() == id,
        intent.kind is Rbf && placement is Fresh ==> forall|i: int|
            0 <= i < records@.len() ==> !tracks_round(#[trigger] records@[i], held_rounds@)
                && records@[i].intent() is None,
{
    law_only_bumps_share_a_record(
        intent.pre_splice_funding_txo,
        intent.kind@,
        records@,
        held_rounds@,
        placement,
        placement,
    );
}

/// The record of a splice that failed is one whose intent moves what the failed contribution moved, and one
/// is found wherever there is one.
pub proof fn law_failed_splices_are_found_by_what_they_moved(
    records: &[PendingPaymentDetails],
    failed: FundingContribution,
    matched: Option<(PaymentId, &SpliceIntent)>,
    i: int,
    settlement: FailureSettlement,
)
    requires
        call_ensures(record_of_failed_splice, (records, Some(&failed)), matched),
        call_ensures(on_negotiation_failed, (records, Some(&failed)), settlement),
    ensures
        failed.inputs@.len() > 0 || failed.outputs@.len() > 0 ==> (matched matches Some((_, intent))
            ==> intent.contribution.inputs@ == failed.inputs@ && crate::payment::pay_alike(
            intent.contribution.outputs@,
            failed.outputs@,
        )),
        0 <= i < records@.len() && (records@[i].intent() matches Some(intent) && same_splice(
            intent.contribution,
            failed@,
        )) ==> matched is Some && settlement.matched is Some,
        matched is Some <==> settlement.matched is Some,
        matched matches Some((id, _)) ==> (settlement.matched matches Some((other, _)) && other
            == id),
{
    if matched is Some {
        let (id, intent) = matched->0;
        let k = choose|k: int| #[trigger]
            is_first_for_splice(records@, k, failed@) && records@[k].spec_id() == id
                && records@[k].intent() == Some(intent@);
        if failed.inputs@.len() > 0 || failed.outputs@.len() > 0 {
            law_failures_are_matched_by_what_was_moved(records@, k, failed, *intent);
        }
        assert(intent_is_for_splice(records@[k], failed@));
        if settlement.matched is Some {
            let (other, settled) = settlement.matched->0;
            let m = choose|m: int| #[trigger]
                is_first_for_splice(records@, m, failed@) && records@[m].spec_id() == other
                    && records@[m].intent() == Some(settled@);
            law_a_recorded_splice_is_found(records@, failed@, k, m);
        }
    }
    if settlement.matched is Some {
        let (other, settled) = settlement.matched->0;
        let m = choose|m: int| #[trigger]
            is_first_for_splice(records@, m, failed@) && records@[m].spec_id() == other
                && records@[m].intent() == Some(settled@);
        assert(intent_is_for_splice(records@[m], failed@));
    }
}

/// What is released of a contribution is what neither a candidate that is held nor the round before uses, and
/// nothing is released where nothing is free.
pub proof fn law_only_what_is_free_is_released(
    contribution: FundingContribution,
    candidates: &[SpliceCandidateDetails],
    release: Option<Release>,
    inputs: Vec<OutPoint>,
    outpoint: OutPoint,
)
    requires
        call_ensures(release_contribution, (&contribution, candidates, None), release),
        call_ensures(unclaimed_inputs, (&contribution, candidates), inputs),
    ensures
        release matches Some(r) ==> r.inputs@.len() > 0 || r.outputs@.len() > 0,
        (release matches Some(r) && r.inputs@.contains(outpoint)) ==> contribution.inputs@.contains(
            outpoint,
        ),
        inputs@.contains(outpoint) <==> contribution.inputs@.contains(outpoint) && forall|
            i: int,
            k: int,
        |
            #![trigger held_contributions(candidates@)[i].inputs[k]]
            0 <= i < held_contributions(candidates@).len() && 0 <= k < held_contributions(
                candidates@,
            )[i].inputs.len() ==> held_contributions(candidates@)[i].inputs[k] != outpoint,
{
    let claimants = claimants_of(candidates@, contribution_view(None));
    law_inputs_are_free_unless_spent_elsewhere(contribution@.inputs, claimants, outpoint);
    law_inputs_are_free_unless_spent_elsewhere(
        contribution@.inputs,
        held_contributions(candidates@),
        outpoint,
    );
}

} // verus!
