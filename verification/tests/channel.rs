use ldk_node::channel::store::ChannelRecord;
use ldk_node::channel::{
    after_submit_stage, begin_submit, check_submission, clear_persisted_intent, concerns_channel,
    decide_on_lock, decide_reconcile, discard_persisted_intent, is_same_splice, may_remove_bare,
    on_negotiation_failed, persist_intent, place_intent, record_of_failed_splice,
    record_with_intent_cleared, refresh_intent_funding, settle_superseded, unclaimed_inputs,
    unclaimed_parts, ChannelState, ClearPlan, IntentPlacement, LockDecision, PersistPlan,
    ReconcileDecision, SettleAction, SpliceCandidateDetails, SpliceCandidateStatus,
    SubmissionRefusal, SubmitNext, SubmitStage, SubmitStart, UndoPlan,
};
use ldk_node::data_store::StorableObject;
use ldk_node::error::Error;
use ldk_node::payment::{
    Channel, ConfirmationStatus, FundingContribution, FundingTxCandidate, LdkOutPoint,
    PaymentDetails, PaymentDirection, PaymentKind, PaymentStatus, PendingPaymentDetails,
    SpliceIntent, SpliceKind, TransactionType, TxOut,
};
use ldk_node::types::{ChannelId, OutPoint, PaymentId, PublicKey, Txid, UserChannelId};

fn bytes33(hex: &str) -> [u8; 33] {
    let bytes = ldk_node::hex::to_vec(hex).unwrap();
    let mut out = [0u8; 33];
    out.copy_from_slice(&bytes);
    out
}

fn test_funding_contribution_with_parts(
    estimated_fee_sats: u64,
    feerate_sat_per_kwu: u64,
    prevtxs: &[bitcoin::Transaction],
    outputs: &[TxOut],
    change_output: Option<&TxOut>,
) -> FundingContribution {
    FundingContribution {
        inputs: prevtxs.iter().map(outpoint).collect(),
        outputs: outputs.to_vec(),
        change_output: change_output.cloned(),
        estimated_fee_sats,
        feerate_sat_per_kwu,
    }
}

fn test_funding_contribution_with_outputs(
    fee: u64,
    feerate: u64,
    outputs: &[TxOut],
) -> FundingContribution {
    test_funding_contribution_with_parts(fee, feerate, &[], outputs, None)
}

fn test_funding_contribution_with_inputs(
    feerate: u64,
    prevtxs: &[bitcoin::Transaction],
) -> FundingContribution {
    test_funding_contribution_with_parts(0, feerate, prevtxs, &[], None)
}

fn test_funding_contribution_with_feerate(feerate: u64) -> FundingContribution {
    test_funding_contribution_with_parts(0, feerate, &[], &[], None)
}

fn test_funding_contribution() -> FundingContribution {
    test_funding_contribution_with_feerate(253)
}

fn test_intent() -> SpliceIntent {
    SpliceIntent {
        counterparty_node_id: PublicKey(bytes33(
            "0279be667ef9dcbbac55a06295ce870b07029bfcdb2dce28d959f2815b16f81798",
        )),
        channel_id: ChannelId([7u8; 32]),
        pre_splice_funding_txo: LdkOutPoint { txid: Txid([3u8; 32]), index: 0 },
        contribution: test_funding_contribution(),
        kind: SpliceKind::Rbf {},
    }
}

fn payment_details(id: PaymentId, status: PaymentStatus) -> PaymentDetails {
    PaymentDetails::new(
        id,
        PaymentKind::Onchain {
            txid: Txid([1u8; 32]),
            status: ConfirmationStatus::Unconfirmed,
            tx_type: None,
        },
        Some(1_000_000),
        Some(500),
        PaymentDirection::Outbound,
        status,
    )
}

fn txout(value_sats: u64) -> TxOut {
    TxOut { value_sats, script_pubkey: Vec::new() }
}

fn intent_with(
    kind: SpliceKind,
    funding_byte: u8,
    contribution: FundingContribution,
) -> SpliceIntent {
    SpliceIntent {
        pre_splice_funding_txo: LdkOutPoint { txid: Txid([funding_byte; 32]), index: 0 },
        contribution,
        kind,
        ..test_intent()
    }
}

fn splice_out_contribution(value_sat: u64) -> FundingContribution {
    test_funding_contribution_with_outputs(300, 253, &[txout(value_sat)])
}

fn out() -> SpliceKind {
    SpliceKind::Out { outputs: Vec::new() }
}

fn followed_record(
    id: PaymentId,
    txid: Txid,
    candidates: &[Txid],
    intent: Option<SpliceIntent>,
) -> PendingPaymentDetails {
    let base = test_intent();
    let details = PaymentDetails::new(
        id,
        PaymentKind::Onchain {
            txid,
            status: ConfirmationStatus::Unconfirmed,
            tx_type: Some(TransactionType::InteractiveFunding {
                channels: vec![Channel {
                    counterparty_node_id: base.counterparty_node_id,
                    channel_id: base.channel_id,
                }],
            }),
        },
        Some(1_000_000),
        Some(500),
        PaymentDirection::Outbound,
        PaymentStatus::Pending,
    );
    let candidates = candidates
        .iter()
        .map(|txid| FundingTxCandidate {
            txid: *txid,
            amount_msat: Some(1_000_000),
            fee_paid_msat: Some(500),
            awaiting_broadcast: false,
        })
        .collect();
    PendingPaymentDetails::followed(details, Vec::new(), candidates, intent)
}

fn txid(byte: u8) -> Txid {
    Txid([byte; 32])
}

#[test]
fn intent_clearing_removes_a_bare_intent_entry() {
    let id = PaymentId([9u8; 32]);
    let existing = PendingPaymentDetails::pending_splice(id, test_intent());
    assert!(record_with_intent_cleared(existing).is_none());
}

#[test]
fn intent_clearing_keeps_a_tracked_record() {
    let id = PaymentId([9u8; 32]);
    let details = payment_details(id, PaymentStatus::Pending);
    let existing = PendingPaymentDetails::followed(
        details.clone(),
        Vec::new(),
        Vec::new(),
        Some(test_intent()),
    );

    let replacement = record_with_intent_cleared(existing);
    let replacement = replacement.expect("the entry must survive with its intent cleared");
    assert_eq!(format!("{:?}", replacement.details()), format!("{:?}", Some(&details)));
    assert!(replacement.splice_intent().is_none());
}

#[test]
fn contributions_match_by_inputs_and_outputs() {
    let outputs = vec![txout(1_000)];
    let a = test_funding_contribution_with_outputs(0, 253, &outputs);
    let b = test_funding_contribution_with_outputs(0, 500, &outputs);
    assert!(is_same_splice(&a, &b));

    let other = vec![txout(2_000)];
    assert!(!is_same_splice(&a, &test_funding_contribution_with_outputs(0, 253, &other)));

    assert!(is_same_splice(&test_funding_contribution(), &test_funding_contribution()));
    assert!(!is_same_splice(
        &test_funding_contribution(),
        &test_funding_contribution_with_feerate(500)
    ));
}

#[test]
fn a_splice_in_or_out_gets_a_record_of_its_own() {
    let pending = intent_with(out(), 3, splice_out_contribution(1_000));
    let records = vec![
        PendingPaymentDetails::pending_splice(PaymentId([1u8; 32]), pending.clone()),
        followed_record(PaymentId([2u8; 32]), txid(0x10), &[txid(0x10)], Some(pending)),
    ];
    let held = [txid(0x10)];

    let splice_in =
        intent_with(SpliceKind::In { amount_sats: 5_000 }, 3, test_funding_contribution());
    assert_eq!(place_intent(&splice_in, &records, &held), IntentPlacement::Fresh);
    let splice_out = intent_with(out(), 3, splice_out_contribution(2_000));
    assert_eq!(place_intent(&splice_out, &records, &held), IntentPlacement::Fresh);
    assert_eq!(place_intent(&splice_out, &[], &[]), IntentPlacement::Fresh);
}

#[test]
fn a_bump_joins_the_record_tracking_a_held_round() {
    let bump = intent_with(SpliceKind::Rbf {}, 3, test_funding_contribution());
    let bare_id = PaymentId([1u8; 32]);
    let followed_id = PaymentId([2u8; 32]);
    let records = vec![
        PendingPaymentDetails::pending_splice(
            bare_id,
            intent_with(out(), 3, splice_out_contribution(1_000)),
        ),
        followed_record(followed_id, txid(0x11), &[txid(0x10), txid(0x11)], None),
    ];
    assert_eq!(
        place_intent(&bump, &records, &[txid(0x11)]),
        IntentPlacement::Reuse(followed_id)
    );

    assert_eq!(place_intent(&bump, &records, &[]), IntentPlacement::Reuse(bare_id));

    let locked_only = vec![followed_record(followed_id, txid(0x11), &[txid(0x11)], None)];
    assert_eq!(place_intent(&bump, &locked_only, &[]), IntentPlacement::Fresh);
}

#[test]
fn an_intent_anchored_elsewhere_refuses_every_kind() {
    let stale = intent_with(out(), 4, splice_out_contribution(1_000));
    let current = intent_with(out(), 3, splice_out_contribution(2_000));
    let records = vec![
        PendingPaymentDetails::pending_splice(PaymentId([1u8; 32]), current),
        PendingPaymentDetails::pending_splice(PaymentId([2u8; 32]), stale),
    ];
    for kind in [SpliceKind::In { amount_sats: 5_000 }, out(), SpliceKind::Rbf {}] {
        let intent = intent_with(kind, 3, test_funding_contribution());
        assert_eq!(place_intent(&intent, &records, &[]), IntentPlacement::Refused);
    }
}

#[test]
fn a_failure_identifies_the_record_carrying_its_contribution() {
    let first = intent_with(out(), 3, splice_out_contribution(1_000));
    let second = intent_with(out(), 3, splice_out_contribution(2_000));
    let (first_id, second_id) = (PaymentId([1u8; 32]), PaymentId([2u8; 32]));
    let records = vec![
        PendingPaymentDetails::pending_splice(first_id, first.clone()),
        followed_record(second_id, txid(0x10), &[txid(0x10)], Some(second.clone())),
    ];

    let adjusted = test_funding_contribution_with_outputs(900, 1_000, &[txout(2_000)]);
    let (id, intent) = record_of_failed_splice(&records, Some(&adjusted)).unwrap();
    assert_eq!(id, second_id);
    assert!(intent.same(&second));
    let (id, intent) = record_of_failed_splice(&records, Some(&first.contribution)).unwrap();
    assert_eq!(id, first_id);
    assert!(intent.same(&first));
    assert!(record_of_failed_splice(&records, Some(&splice_out_contribution(3_000))).is_none());
    assert!(record_of_failed_splice(&records, None).is_none());
}

#[test]
fn a_lock_keeps_refreshes_or_settles_an_intent() {
    let intent = intent_with(out(), 3, splice_out_contribution(1_000));
    let same_funding = intent.pre_splice_funding_txo.into_bitcoin_outpoint();
    let new_funding = OutPoint { txid: txid(0x20), vout: 0 };
    let held = [SpliceCandidateDetails {
        contribution: Some(splice_out_contribution(1_000)),
        status: SpliceCandidateStatus::WaitingOnLock,
    }];
    let other = [
        SpliceCandidateDetails {
            contribution: Some(splice_out_contribution(2_000)),
            status: SpliceCandidateStatus::WaitingOnLock,
        },
        SpliceCandidateDetails { contribution: None, status: SpliceCandidateStatus::WaitingOnLock },
    ];

    assert_eq!(decide_on_lock(&intent, same_funding, &other), LockDecision::Keep);
    assert_eq!(decide_on_lock(&intent, new_funding, &held), LockDecision::Refresh);
    assert_eq!(decide_on_lock(&intent, new_funding, &other), LockDecision::Settle);
    assert_eq!(decide_on_lock(&intent, new_funding, &[]), LockDecision::Settle);
}

#[test]
fn a_submission_is_checked_against_the_live_funding() {
    let requested = LdkOutPoint { txid: txid(0x30), index: 0 };
    let moved = LdkOutPoint { txid: txid(0x31), index: 0 };
    let kinds = [SpliceKind::In { amount_sats: 5_000 }, out(), SpliceKind::Rbf {}];
    for kind in &kinds {
        assert!(check_submission(requested, Some(requested), kind).unwrap().same(&requested));
        assert_eq!(
            check_submission(requested, None, kind).err(),
            Some(SubmissionRefusal::ChannelGone)
        );
    }
    assert_eq!(
        check_submission(requested, Some(moved), &SpliceKind::Rbf {}).err(),
        Some(SubmissionRefusal::BumpedRoundLocked)
    );
    assert_eq!(
        check_submission(requested, Some(moved), &SpliceKind::In { amount_sats: 5_000 }).err(),
        Some(SubmissionRefusal::InputsMayBeSpent)
    );
    assert!(check_submission(requested, Some(moved), &out()).unwrap().same(&moved));
}

#[test]
fn records_concerning_a_channel() {
    let base = test_intent();
    let (cp, channel_id) = (base.counterparty_node_id, base.channel_id);
    let id = PaymentId([1u8; 32]);
    assert!(concerns_channel(
        &PendingPaymentDetails::pending_splice(id, base.clone()),
        cp,
        channel_id
    ));
    assert!(concerns_channel(
        &followed_record(id, txid(0x10), &[txid(0x10)], None),
        cp,
        channel_id
    ));

    let other_channel = SpliceIntent { channel_id: ChannelId([8u8; 32]), ..base };
    assert!(!concerns_channel(
        &PendingPaymentDetails::pending_splice(id, other_channel),
        cp,
        channel_id
    ));
    assert!(!concerns_channel(
        &followed_record(id, txid(0x10), &[], None),
        cp,
        ChannelId([8u8; 32])
    ));
    let plain = PendingPaymentDetails::new(
        payment_details(id, PaymentStatus::Pending),
        Vec::new(),
        Vec::new(),
    );
    assert!(!concerns_channel(&plain, cp, channel_id));
}

fn negotiated_candidate(contribution: Option<FundingContribution>) -> SpliceCandidateDetails {
    SpliceCandidateDetails {
        contribution,
        status: SpliceCandidateStatus::Negotiated {
            txid: Txid([9u8; 32]),
            new_channel_value_satoshis: 100_000,
        },
    }
}

fn script(seed: u8) -> Vec<u8> {
    bitcoin::ScriptBuf::new_p2wpkh(&<bitcoin::WPubkeyHash as bitcoin::hashes::Hash>::from_byte_array([seed; 20])).into_bytes()
}

fn test_prevtx(seed: u8) -> bitcoin::Transaction {
    bitcoin::Transaction {
        version: bitcoin::transaction::Version::TWO,
        lock_time: bitcoin::absolute::LockTime::ZERO,
        input: vec![bitcoin::TxIn::default()],
        output: vec![bitcoin::TxOut {
            value: bitcoin::Amount::from_sat(10_000),
            script_pubkey: bitcoin::ScriptBuf::from_bytes(script(seed)),
        }],
    }
}

fn outpoint(tx: &bitcoin::Transaction) -> OutPoint {
    OutPoint { txid: Txid(bitcoin::hashes::Hash::to_byte_array(tx.compute_txid())), vout: 0 }
}

fn assert_outputs(found: &[TxOut], expected: &[TxOut]) {
    assert_eq!(found.len(), expected.len());
    for (a, b) in found.iter().zip(expected) {
        assert!(a.same(b));
    }
}

#[test]
fn unclaimed_parts_spare_what_other_contributions_use() {
    let prevtxs: Vec<bitcoin::Transaction> = (1u8..=3).map(test_prevtx).collect();
    let change = |sats: u64| TxOut { value_sats: sats, script_pubkey: script(9) };
    let splice_out = TxOut { value_sats: 50_000, script_pubkey: script(8) };
    let bump = test_funding_contribution_with_parts(
        0,
        300,
        &prevtxs,
        &[splice_out.clone()],
        Some(&change(20_000)),
    );

    let prior = test_funding_contribution_with_parts(
        0,
        253,
        &prevtxs,
        &[splice_out.clone()],
        Some(&change(21_000)),
    );
    let (inputs, outputs) = unclaimed_parts(&bump, &vec![&prior]);
    assert!(inputs.is_empty());
    assert!(outputs.is_empty());

    let partial =
        test_funding_contribution_with_parts(0, 253, &prevtxs[..2], &[], Some(&change(21_000)));
    let candidates = [negotiated_candidate(None), negotiated_candidate(Some(partial))];
    let claimants: Vec<&FundingContribution> =
        candidates.iter().filter_map(|candidate| candidate.contribution.as_ref()).collect();
    let (inputs, outputs) = unclaimed_parts(&bump, &claimants);
    assert_eq!(inputs, vec![outpoint(&prevtxs[2])]);
    assert_outputs(&outputs, &[splice_out.clone()]);

    let (inputs, outputs) = unclaimed_parts(&bump, &Vec::new());
    assert_eq!(inputs, prevtxs.iter().map(outpoint).collect::<Vec<_>>());
    assert_outputs(&outputs, &[splice_out, change(20_000)]);
}

#[test]
fn reconcile_keeps_the_intent_while_ldk_drives_a_round() {
    let in_flight = SpliceCandidateDetails {
        contribution: Some(test_funding_contribution()),
        status: SpliceCandidateStatus::AwaitingSignatures {
            is_initiator: true,
            funding_feerate_sat_per_1000_weight: 253,
            new_channel_value_satoshis: 100_000,
            txid: Txid([9u8; 32]),
        },
    };
    assert_eq!(decide_reconcile(&[in_flight]), ReconcileDecision::Keep);
}

#[test]
fn reconcile_trusts_a_negotiated_contribution() {
    let negotiated = [negotiated_candidate(Some(test_funding_contribution()))];
    assert_eq!(decide_reconcile(&negotiated), ReconcileDecision::Keep);
}

#[test]
fn reconcile_keeps_a_bump_negotiated_at_a_lower_feerate() {
    let lower = [negotiated_candidate(Some(test_funding_contribution_with_feerate(253)))];
    assert_eq!(decide_reconcile(&lower), ReconcileDecision::Keep);
}

#[test]
fn reconcile_finds_the_splice_lost_when_ldk_holds_no_contribution() {
    assert_eq!(decide_reconcile(&[]), ReconcileDecision::Lost);
    let counterparty_only = [negotiated_candidate(None)];
    assert_eq!(decide_reconcile(&counterparty_only), ReconcileDecision::Lost);
}

#[test]
fn unclaimed_inputs_are_those_no_candidate_contribution_uses() {
    let prevtxs: Vec<bitcoin::Transaction> = (1u8..=3).map(test_prevtx).collect();
    let recorded = test_funding_contribution_with_inputs(253, &prevtxs);

    let all = [negotiated_candidate(Some(test_funding_contribution_with_inputs(253, &prevtxs)))];
    assert!(unclaimed_inputs(&recorded, &all).is_empty());

    let partial = [
        negotiated_candidate(None),
        negotiated_candidate(Some(test_funding_contribution_with_inputs(253, &prevtxs[..2]))),
    ];
    assert_eq!(unclaimed_inputs(&recorded, &partial), vec![outpoint(&prevtxs[2])]);

    assert_eq!(
        unclaimed_inputs(&recorded, &[]),
        prevtxs.iter().map(outpoint).collect::<Vec<_>>()
    );
}

fn make_record(is_outbound: bool, is_announced: bool) -> ChannelRecord {
    ChannelRecord::Funded {
        user_channel_id: UserChannelId(42),
        counterparty_node_id: PublicKey([2u8; 33]),
        channel_id: ChannelId([3u8; 32]),
        is_outbound,
        is_announced,
    }
}

#[test]
fn channel_record_roundtrips() {
    for (is_outbound, is_announced) in
        [(true, false), (false, true), (true, true), (false, false)]
    {
        let record = make_record(is_outbound, is_announced);
        let encoded = record.encode();
        let decoded = ChannelRecord::read(&encoded[..]).expect("decode succeeds");
        assert_eq!(record, decoded);
        assert_eq!(decoded.id(), UserChannelId(42));
        assert!(matches!(
            decoded,
            ChannelRecord::Funded {
                is_outbound: dec_out,
                is_announced: dec_ann,
                ..
            } if dec_out == is_outbound && dec_ann == is_announced
        ));
    }
}

#[test]
fn a_record_with_a_counterparty_off_the_curve_is_not_read() {
    let mut encoded = make_record(true, true).encode();
    // The key stands behind the variant, the length, the first field and the header of the second.
    let position = encoded.windows(33).position(|w| w == &[2u8; 33][..]).unwrap();
    encoded[position] = 9;
    assert!(ChannelRecord::read(&encoded[..]).is_err());
    assert!(ChannelRecord::read(&[]).is_err());
    assert!(ChannelRecord::read(&[1, 0]).is_err());
}

#[test]
fn a_lock_settles_only_the_intents_it_supersedes() {
    let intent = intent_with(out(), 3, splice_out_contribution(1_000));
    let record = PendingPaymentDetails::pending_splice(PaymentId([1u8; 32]), intent.clone());
    let same_funding = intent.pre_splice_funding_txo.into_bitcoin_outpoint();
    let moved = LdkOutPoint { txid: txid(0x20), index: 1 };
    let held = ChannelState {
        funding_txo: Some(moved),
        candidates: vec![negotiated_candidate(Some(splice_out_contribution(1_000)))],
    };
    let unfunded = ChannelState {
        funding_txo: None,
        candidates: vec![negotiated_candidate(Some(splice_out_contribution(1_000)))],
    };
    let other = ChannelState {
        funding_txo: Some(moved),
        candidates: vec![negotiated_candidate(Some(splice_out_contribution(2_000)))],
    };
    let new_funding = moved.into_bitcoin_outpoint();

    assert!(matches!(settle_superseded(&record, same_funding, Some(&other)), SettleAction::Keep));
    assert!(matches!(
        settle_superseded(&record, new_funding, Some(&held)),
        SettleAction::Reanchor(funding) if funding.same(&moved)
    ));
    assert!(matches!(settle_superseded(&record, new_funding, Some(&unfunded)), SettleAction::Keep));
    assert!(matches!(settle_superseded(&record, new_funding, Some(&other)), SettleAction::Clear));
    assert!(matches!(settle_superseded(&record, new_funding, None), SettleAction::Clear));

    let without_intent = followed_record(PaymentId([2u8; 32]), txid(0x10), &[txid(0x10)], None);
    assert!(matches!(
        settle_superseded(&without_intent, new_funding, Some(&other)),
        SettleAction::Keep
    ));
}

#[test]
fn reanchoring_changes_nothing_but_the_anchor() {
    let intent = intent_with(out(), 3, splice_out_contribution(1_000));
    let moved = LdkOutPoint { txid: txid(0x20), index: 1 };
    let id = PaymentId([2u8; 32]);
    let record =
        || followed_record(id, txid(0x11), &[txid(0x10), txid(0x11)], Some(intent.clone()));

    let refreshed = refresh_intent_funding(Some(record()), &intent, moved).unwrap();
    let expected = followed_record(
        id,
        txid(0x11),
        &[txid(0x10), txid(0x11)],
        Some(SpliceIntent { pre_splice_funding_txo: moved, ..intent.clone() }),
    );
    assert_eq!(format!("{:?}", refreshed), format!("{:?}", expected));

    let bumped = intent_with(SpliceKind::Rbf {}, 3, splice_out_contribution(1_000));
    assert!(refresh_intent_funding(Some(record()), &bumped, moved).is_none());
    let anchor = intent.pre_splice_funding_txo;
    assert!(refresh_intent_funding(Some(record()), &intent, anchor).is_none());
    assert!(refresh_intent_funding(None, &intent, moved).is_none());
}

#[test]
fn a_persisted_intent_is_cleared_only_while_it_is_the_expected_one() {
    let intent = intent_with(out(), 3, splice_out_contribution(1_000));
    let bump = intent_with(SpliceKind::Rbf {}, 3, splice_out_contribution(1_000));
    let id = PaymentId([2u8; 32]);
    let bare = || PendingPaymentDetails::pending_splice(id, intent.clone());
    let followed = || followed_record(id, txid(0x11), &[txid(0x11)], Some(intent.clone()));

    assert!(matches!(clear_persisted_intent(None, None), ClearPlan::Leave));
    assert!(matches!(clear_persisted_intent(Some(bare()), Some(&bump)), ClearPlan::Leave));
    assert!(matches!(clear_persisted_intent(Some(bare()), Some(&intent)), ClearPlan::RemoveBare));
    assert!(matches!(clear_persisted_intent(Some(bare()), None), ClearPlan::RemoveBare));
    match clear_persisted_intent(Some(followed()), Some(&intent)) {
        ClearPlan::Replace(record) => assert_eq!(
            format!("{:?}", record),
            format!("{:?}", followed_record(id, txid(0x11), &[txid(0x11)], None))
        ),
        plan => panic!("unexpected plan {:?}", plan),
    }
    let cleared = followed_record(id, txid(0x11), &[txid(0x11)], None);
    assert!(matches!(clear_persisted_intent(Some(cleared), None), ClearPlan::Leave));

    assert!(may_remove_bare(&bare(), None));
    assert!(may_remove_bare(&bare(), Some(&intent)));
    assert!(!may_remove_bare(&bare(), Some(&bump)));
    assert!(!may_remove_bare(&followed(), Some(&intent)));
}

#[test]
fn an_intent_is_persisted_where_it_belongs_and_undone_there() {
    let bump = intent_with(SpliceKind::Rbf {}, 3, test_funding_contribution());
    let splice_out = intent_with(out(), 3, splice_out_contribution(1_000));
    let stale = intent_with(out(), 4, splice_out_contribution(2_000));
    let id = PaymentId([2u8; 32]);
    let records = vec![PendingPaymentDetails::pending_splice(id, splice_out.clone())];
    assert!(matches!(
        persist_intent(&bump, &records, &[]),
        Ok(PersistPlan::Update(reused, Some(prior))) if reused == id && prior.same(&splice_out)
    ));
    assert!(matches!(persist_intent(&splice_out, &records, &[]), Ok(PersistPlan::Insert)));
    assert_eq!(
        persist_intent(&stale, &records, &[]).err(),
        Some(Error::ChannelSplicingFailed)
    );

    assert!(matches!(discard_persisted_intent(id, None), UndoPlan::Remove(gone) if gone == id));
    match discard_persisted_intent(id, Some(Some(splice_out.clone()))) {
        UndoPlan::Restore(kept, Some(prior)) => {
            assert_eq!(kept, id);
            assert!(prior.same(&splice_out));
        },
        plan => panic!("unexpected plan {:?}", plan),
    }
    assert!(matches!(discard_persisted_intent(id, Some(None)), UndoPlan::Restore(_, None)));
}

#[test]
fn a_submission_is_durable_before_it_is_handed_over() {
    let ok = Ok(());
    let failed = Err(Error::PersistenceFailed);
    assert_eq!(
        after_submit_stage(SubmitStage::SettleSuperseded, failed),
        SubmitNext::Proceed(SubmitStage::PersistIntent)
    );
    assert_eq!(
        after_submit_stage(SubmitStage::PersistIntent, ok),
        SubmitNext::Proceed(SubmitStage::PersistStaged)
    );
    assert_eq!(
        after_submit_stage(SubmitStage::PersistIntent, failed),
        SubmitNext::Abandon {
            discard_intent: false,
            release: true,
            error: Error::PersistenceFailed
        }
    );
    assert_eq!(
        after_submit_stage(SubmitStage::PersistStaged, failed),
        SubmitNext::Abandon {
            discard_intent: true,
            release: true,
            error: Error::PersistenceFailed
        }
    );
    assert_eq!(
        after_submit_stage(SubmitStage::PersistStaged, ok),
        SubmitNext::Proceed(SubmitStage::HandOff)
    );
    assert_eq!(after_submit_stage(SubmitStage::HandOff, ok), SubmitNext::Submitted);
    assert_eq!(
        after_submit_stage(SubmitStage::HandOff, failed),
        SubmitNext::Abandon {
            discard_intent: true,
            release: false,
            error: Error::ChannelSplicingFailed
        }
    );
}

#[test]
fn a_refused_submission_releases_what_nothing_else_claims() {
    let (first, second) = (test_prevtx(1), test_prevtx(2));
    let contribution =
        test_funding_contribution_with_inputs(253, &[first.clone(), second.clone()]);
    let requested = LdkOutPoint { txid: txid(0x30), index: 0 };
    let moved = LdkOutPoint { txid: txid(0x31), index: 0 };
    let splice_in = SpliceKind::In { amount_sats: 5_000 };
    let channel = ChannelState {
        funding_txo: Some(moved),
        candidates: vec![negotiated_candidate(Some(test_funding_contribution_with_inputs(
            500,
            &[first],
        )))],
    };

    match begin_submit(Some(&channel), requested, &contribution, &splice_in, None) {
        SubmitStart::Refuse(SubmissionRefusal::InputsMayBeSpent, Some(release)) => {
            assert_eq!(release.inputs, vec![outpoint(&second)]);
        },
        start => panic!("unexpected start {:?}", start),
    }
    match begin_submit(None, requested, &contribution, &splice_in, None) {
        SubmitStart::Refuse(SubmissionRefusal::ChannelGone, Some(release)) => {
            assert_eq!(release.inputs.len(), 2);
        },
        start => panic!("unexpected start {:?}", start),
    }
    assert!(matches!(
        begin_submit(Some(&channel), moved, &contribution, &splice_in, None),
        SubmitStart::Anchor(funding) if funding.same(&moved)
    ));
    assert!(matches!(
        begin_submit(Some(&channel), requested, &contribution, &out(), None),
        SubmitStart::Anchor(funding) if funding.same(&moved)
    ));
}

#[test]
fn a_failed_negotiation_names_the_call_behind_it() {
    let splice_in = intent_with(
        SpliceKind::In { amount_sats: 5_000 },
        3,
        splice_out_contribution(2_000),
    );
    let id = PaymentId([2u8; 32]);
    let records = vec![PendingPaymentDetails::pending_splice(id, splice_in.clone())];

    let settlement = on_negotiation_failed(&records, Some(&splice_in.contribution));
    assert!(matches!(
        settlement.originating_kind(),
        Some(SpliceKind::In { amount_sats: 5_000 })
    ));
    let (matched, intent) = settlement.matched.unwrap();
    assert_eq!(matched, id);
    assert!(intent.same(&splice_in));

    let unknown = on_negotiation_failed(&records, Some(&splice_out_contribution(3_000)));
    assert!(unknown.matched.is_none());
    assert!(unknown.originating_kind().is_none());
    assert!(on_negotiation_failed(&records, None).matched.is_none());
}
