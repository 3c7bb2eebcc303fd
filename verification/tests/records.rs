use lightning::events::ClosureReason;
use lightning::util::ser::Writeable as _;

use ldk_node::closed_channel::ClosedChannelDetails;
use ldk_node::config::{AddressType, OnchainWalletAccount};
use ldk_node::data_store::{StorableObject as _, UpdatableObject as _};
use ldk_node::metrics::{contains_account, NodeMetrics};
use ldk_node::text::{text_eq, to_decimal};
use ldk_node::tlv::{
    find_field, is_understood, parse_big_size, parse_length_prefixed, parse_stream, push_be,
    push_big_size, push_record, read_be,
};
use ldk_node::types::{ChannelId, OutPoint, PublicKey, Txid, UserChannelId};

const KEY: &str = "0279be667ef9dcbbac55a06295ce870b07029bfcdb2dce28d959f2815b16f81798";

fn details() -> ClosedChannelDetails {
    let reason = ClosureReason::HolderForceClosed {
        broadcasted_latest_txn: Some(true),
        message: "closing".to_string(),
    };
    ClosedChannelDetails {
        channel_id: ChannelId([5; 32]),
        user_channel_id: UserChannelId(0x0102),
        counterparty_node_id: Some(PublicKey(
            ldk_node::hex::to_vec(KEY).unwrap().try_into().unwrap(),
        )),
        funding_txo: Some(OutPoint { txid: Txid([7; 32]), vout: 258 }),
        channel_capacity_sats: Some(1_000_000),
        last_local_balance_msat: Some(42),
        is_outbound: true,
        closure_reason: Some(ldk_node::hex::to_string(&reason.encode())),
        closed_at: 1_700_000_000,
    }
}

#[test]
fn closed_channels_are_read_back() {
    let original = details();
    let read = ClosedChannelDetails::read(&original.write(), 0).ok().unwrap();
    assert_eq!(format!("{:?}", read), format!("{:?}", original));

    let mut bare = details();
    bare.counterparty_node_id = None;
    bare.funding_txo = None;
    bare.channel_capacity_sats = None;
    bare.last_local_balance_msat = None;
    bare.is_outbound = false;
    bare.closure_reason = None;
    let read = ClosedChannelDetails::read(&bare.write(), 0).ok().unwrap();
    assert_eq!(format!("{:?}", read), format!("{:?}", bare));
}

#[test]
fn closed_channels_are_written_as_a_stream_of_records() {
    let mut bare = details();
    bare.counterparty_node_id = None;
    bare.funding_txo = None;
    bare.channel_capacity_sats = Some(1);
    bare.last_local_balance_msat = None;
    bare.closure_reason = None;
    let mut expected = vec![34 + 18 + 10 + 3 + 10, 0, 32];
    expected.extend_from_slice(&[5; 32]);
    expected.extend_from_slice(&[2, 16]);
    expected.extend_from_slice(&0x0102u128.to_be_bytes());
    expected.extend_from_slice(&[8, 8]);
    expected.extend_from_slice(&1u64.to_be_bytes());
    expected.extend_from_slice(&[12, 1, 1, 16, 8]);
    expected.extend_from_slice(&1_700_000_000u64.to_be_bytes());
    assert_eq!(bare.write(), expected);
}

#[test]
fn malformed_closed_channels_are_refused() {
    assert!(ClosedChannelDetails::read(&[], 0).is_err());
    let mut bytes = details().write();
    bytes.pop();
    assert!(ClosedChannelDetails::read(&bytes, 0).is_err());

    // No key of a curve point.
    let mut bad = details();
    bad.counterparty_node_id = Some(PublicKey([0; 33]));
    assert!(ClosedChannelDetails::read(&bad.write(), 0).is_err());
    // No closure reason.
    let mut bad = details();
    bad.closure_reason = Some("".to_string());
    assert!(ClosedChannelDetails::read(&bad.write(), 0).is_err());
}

#[test]
fn a_missing_time_of_closure_is_now() {
    let mut inner = Vec::new();
    push_record(&mut inner, 0, &[5; 32]);
    push_record(&mut inner, 2, &7u128.to_be_bytes());
    push_record(&mut inner, 12, &[0]);
    // An optional record of another kind is passed over.
    push_record(&mut inner, 17, &[1, 2, 3]);
    let mut bytes = Vec::new();
    push_big_size(&mut bytes, inner.len() as u64);
    bytes.extend_from_slice(&inner);
    let read = ClosedChannelDetails::read(&bytes, 99).ok().unwrap();
    assert_eq!((read.user_channel_id.0, read.closed_at), (7, 99));
    assert!(!read.is_outbound);
}

#[test]
fn closed_channels_do_not_change() {
    let mut closed = details();
    let update = closed.to_update();
    assert_eq!(update.0, UserChannelId(0x0102));
    assert!(!closed.update(update));
    assert_eq!(closed.id(), UserChannelId(0x0102));
    assert_eq!(format!("{:?}", closed.duplicate()), format!("{:?}", details()));
}

#[test]
fn numbers_take_as_many_bytes_as_they_need() {
    for (n, bytes) in [
        (0u64, vec![0u8]),
        (252, vec![252]),
        (253, vec![253, 0, 253]),
        (65_535, vec![253, 255, 255]),
        (65_536, vec![254, 0, 1, 0, 0]),
        (u32::MAX as u64 + 1, vec![255, 0, 0, 0, 1, 0, 0, 0, 0]),
    ] {
        let mut out = Vec::new();
        push_big_size(&mut out, n);
        assert_eq!(out, bytes);
        assert_eq!(parse_big_size(&out, 0), Some((n, bytes.len())));
    }
    // A number that would fit fewer bytes is malformed.
    assert_eq!(parse_big_size(&[253, 0, 252], 0), None);
    assert_eq!(parse_big_size(&[253, 0], 0), None);
    assert_eq!(parse_big_size(&[], 0), None);

    let mut out = Vec::new();
    push_be(&mut out, 0x0102, 4);
    assert_eq!(out, vec![0, 0, 1, 2]);
    assert_eq!(read_be(&out, 2, 2), 0x0102);
}

#[test]
fn records_come_in_ascending_order() {
    let mut stream = Vec::new();
    push_record(&mut stream, 1, &[9]);
    push_record(&mut stream, 4, &[]);
    let records = parse_stream(&stream).unwrap();
    assert_eq!(find_field(&records, 1), Some(&vec![9]));
    assert_eq!(find_field(&records, 4), Some(&vec![]));
    assert_eq!(find_field(&records, 2), None);
    assert!(is_understood(&records, &[4]));
    assert!(!is_understood(&records, &[1]));

    let mut twice = Vec::new();
    push_record(&mut twice, 1, &[9]);
    push_record(&mut twice, 1, &[9]);
    assert!(parse_stream(&twice).is_none());
    assert!(parse_stream(&[1, 2, 9]).is_none());
    assert_eq!(parse_length_prefixed(&[2, 7, 8], 0), Some(vec![7, 8]));
    assert_eq!(parse_length_prefixed(&[2, 7], 0), None);
}

#[test]
fn bytes_in_hexadecimal_digits() {
    assert_eq!(ldk_node::hex::to_string(&[0, 0x1f, 0xab]), "001fab");
    assert_eq!(ldk_node::hex::to_vec("001FaB"), Some(vec![0, 0x1f, 0xab]));
    assert_eq!(ldk_node::hex::to_vec(""), Some(vec![]));
    assert_eq!(ldk_node::hex::to_vec("0"), None);
    assert_eq!(ldk_node::hex::to_vec("0g"), None);
}

#[test]
fn numbers_in_decimal_digits() {
    for n in [0, 7, 10, 1_234_567_890, u64::MAX] {
        assert_eq!(to_decimal(n), n.to_string());
    }
    assert!(text_eq("abc", "abc") && !text_eq("abc", "abd") && !text_eq("abc", "ab"));
}

#[test]
fn accounts_have_times_of_their_own() {
    let account = |index: u32| OnchainWalletAccount {
        address_type: AddressType::Taproot,
        account_index: index,
    };
    let mut metrics = NodeMetrics::new();
    assert_eq!(metrics.get_wallet_sync_timestamp(account(1)), None);
    metrics.set_wallet_sync_timestamp(account(1), 5);
    metrics.set_wallet_sync_timestamp(account(2), 6);
    metrics.set_wallet_sync_timestamp(account(1), 7);
    assert_eq!(metrics.get_wallet_sync_timestamp(account(1)), Some(7));
    assert_eq!(metrics.get_wallet_sync_timestamp(account(2)), Some(6));
    assert!(contains_account(&vec![account(1)], account(1)));
    assert!(!contains_account(&vec![account(1)], account(2)));
}
