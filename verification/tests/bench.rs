use ldk_node::bench::{
    concurrent_write_key, configured_backends, payment_details, payment_details_batch,
    payment_details_from_update, payment_key, payment_update, payment_update_batch_from_offset,
    pending_payment_details_batch_from_offset, pending_payment_details_from_update,
    pending_payment_update_batch_from_offset, postgres_identifier, postgres_table_name, store_id,
    Backend,
};
use ldk_node::payment::{
    PaymentDetailsUpdate, PaymentDirection, PaymentKind, PaymentStatus, PendingPaymentDetails,
    PendingPaymentDetailsUpdate,
};
use ldk_node::types::PaymentId;

fn filled(idx: u64) -> [u8; 32] {
    let mut bytes = [0u8; 32];
    bytes[..8].copy_from_slice(&idx.to_be_bytes());
    bytes[8..16].copy_from_slice(&idx.wrapping_mul(0x9e37_79b9).to_be_bytes());
    bytes
}

#[test]
fn stores_that_are_measured() {
    assert_eq!(configured_backends(false), vec![Backend::Filesystem, Backend::Sqlite]);
    assert_eq!(
        configured_backends(true),
        vec![Backend::Filesystem, Backend::Sqlite, Backend::Postgres]
    );
    assert_eq!(Backend::Filesystem.name(), "filesystem");
    assert_eq!(Backend::Sqlite.name(), "sqlite");
    assert_eq!(Backend::Postgres.name(), "postgres");
    assert_eq!(store_id(12, 345), "12_345");
    assert_eq!(postgres_table_name("12_345"), "ldk_node_bench_12_345");
}

#[test]
fn identifiers_are_quoted() {
    assert_eq!(postgres_identifier("table"), "\"table\"");
    assert_eq!(postgres_identifier("a\"b"), "\"a\"\"b\"");
    assert_eq!(postgres_identifier("\"\""), "\"\"\"\"\"\"");
    assert_eq!(postgres_identifier(""), "\"\"");
}

#[test]
fn payments_have_keys_of_their_own() {
    assert_eq!(payment_key(3), ldk_node::hex::to_string(&filled(3)));
    assert_eq!(payment_key(u64::MAX), ldk_node::hex::to_string(&filled(u64::MAX)));
    assert_ne!(payment_key(3), payment_key(4));
    // They sort as the payments do.
    for (a, b) in [(3u64, 4u64), (255, 256), (1, 1 << 40), (0, u64::MAX)] {
        assert!(payment_key(a) < payment_key(b));
        assert_eq!(&payment_key(b)[..16], format!("{:016x}", b));
        assert_eq!(&payment_key(b)[32..], "0".repeat(32));
    }
    assert_eq!(concurrent_write_key(3, false), payment_key(3));
    assert_eq!(concurrent_write_key(3, true), "shared_payment_key");
}

#[test]
fn payments_are_made_up_from_their_number() {
    let details = payment_details(5);
    assert_eq!(details.id.0, filled(5));
    assert_eq!((details.amount_msat, details.fee_paid_msat), (Some(10_005), None));
    assert_eq!(details.direction, PaymentDirection::Outbound);
    assert_eq!(details.status, PaymentStatus::Pending);
    match details.kind {
        PaymentKind::Bolt11 { hash, preimage, secret, counterparty_skimmed_fee_msat } => {
            assert_eq!(preimage.unwrap().0, filled(6));
            assert_eq!(hash.0, filled(7));
            assert_eq!(secret.unwrap().0, filled(8));
            assert_eq!(counterparty_skimmed_fee_msat, None);
        }
        other => panic!("{:?}", other),
    }
    let batch = payment_details_batch(100);
    assert_eq!(batch[0].id.0, filled(100));
    let last = batch.len() - 1;
    assert_eq!(batch[last].id.0, filled(100 + last as u64));

    let update = payment_update(5);
    assert_eq!(update.id.0, filled(5));
    assert_eq!(update.preimage.unwrap().unwrap().0, filled(7));
    assert_eq!(update.fee_paid_msat, Some(Some(42)));
    assert_eq!(update.status, Some(PaymentStatus::Succeeded));
    let updates = payment_update_batch_from_offset(100).0;
    assert_eq!(updates[1].id.0, filled(101));
}

#[test]
fn pending_payments_have_a_conflict() {
    let batch = pending_payment_details_batch_from_offset(50).0;
    match &batch[2] {
        PendingPaymentDetails::Followed { details, conflicting_txids, candidates, .. } => {
            assert_eq!(details.id.0, filled(52));
            assert_eq!(conflicting_txids.len(), 1);
            assert_eq!(conflicting_txids[0].0, filled(3));
            assert!(candidates.is_empty());
        }
        other => panic!("{:?}", other),
    }
    let updates = pending_payment_update_batch_from_offset(50).0;
    assert_eq!(updates[2].id.0, filled(52));
    assert_eq!(updates[2].conflicting_txids.as_ref().unwrap()[0].0, filled(5));
    assert_eq!(updates[2].payment_update.as_ref().unwrap().id.0, filled(52));
}

#[test]
fn a_change_of_nothing_makes_a_payment() {
    let details = payment_details_from_update(PaymentDetailsUpdate::new(PaymentId([9; 32])));
    assert_eq!((details.amount_msat, details.fee_paid_msat), (Some(10_000), None));
    assert_eq!(details.status, PaymentStatus::Pending);
    assert!(matches!(details.kind, PaymentKind::Bolt11 { hash, .. } if hash.0 == [9; 32]));

    let details = payment_details_from_update(payment_update(1));
    assert_eq!((details.fee_paid_msat, details.status), (Some(42), PaymentStatus::Succeeded));
    assert!(matches!(
        details.kind,
        PaymentKind::Bolt11 { preimage: Some(p), .. } if p.0 == filled(3)
    ));

    let update = PendingPaymentDetailsUpdate {
        id: PaymentId([9; 32]),
        payment_update: None,
        conflicting_txids: None,
    };
    match pending_payment_details_from_update(update) {
        PendingPaymentDetails::Followed { details, conflicting_txids, .. } => {
            assert_eq!(details.id.0, [9; 32]);
            assert!(conflicting_txids.is_empty());
        }
        other => panic!("{:?}", other),
    }
}
