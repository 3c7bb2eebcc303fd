use ldk_node::config::SocketAddress;
use ldk_node::connection::{
    after_connect_step, await_connection, connect_peer_if_necessary, connect_target,
    first_connect_step, ConnectPlan, ConnectStep, ConnectTarget, ConnectionEvent,
    PendingConnectionGuard, PendingConnections,
};
use ldk_node::error::Error;
use ldk_node::types::PublicKey;

fn node_id() -> PublicKey {
    let bytes = ldk_node::hex::to_vec(
        "0279be667ef9dcbbac55a06295ce870b07029bfcdb2dce28d959f2815b16f81798",
    )
    .unwrap();
    let mut key = [0u8; 33];
    key.copy_from_slice(&bytes);
    PublicKey(key)
}

#[test]
fn pending_connection_guard_notifies_subscribers_when_abandoned() {
    let node_id = node_id();
    let mut pending_connections = PendingConnections::new();
    assert!(!pending_connections.register_or_subscribe_pending_connection(node_id, 1, &vec![]));
    assert!(pending_connections.register_or_subscribe_pending_connection(node_id, 2, &vec![]));

    let connection_guard = PendingConnectionGuard::new(node_id);
    let notices = connection_guard.release(&mut pending_connections).unwrap();

    assert!(
        pending_connections.is_empty(),
        "abandoned connection attempt should remove pending state"
    );
    assert_eq!(notices.callers, vec![2]);
    assert_eq!(notices.result, Err(Error::ConnectionFailed));
}

#[test]
fn a_disarmed_guard_tells_nobody() {
    let node_id = node_id();
    let mut pending = PendingConnections::new();
    pending.register_or_subscribe_pending_connection(node_id, 1, &vec![]);
    pending.register_or_subscribe_pending_connection(node_id, 2, &vec![]);
    pending.register_or_subscribe_pending_connection(node_id, 3, &vec![2]);
    let mut guard = PendingConnectionGuard::new(node_id);
    let notices = pending.propagate_result_to_subscribers(node_id, Ok(()));
    // The second caller did not wait any more.
    assert_eq!(notices.callers, vec![3]);
    assert_eq!(notices.result, Ok(()));
    guard.disarm();
    assert!(guard.release(&mut pending).is_none());
    assert!(pending.is_empty());
}

#[test]
fn attempts_for_different_peers_are_independent() {
    let (a, b) = (node_id(), PublicKey([2; 33]));
    let mut pending = PendingConnections::new();
    assert!(!pending.register_or_subscribe_pending_connection(a, 1, &vec![]));
    assert!(!pending.register_or_subscribe_pending_connection(b, 2, &vec![]));
    assert!(pending.register_or_subscribe_pending_connection(b, 3, &vec![]));
    assert!(pending.abandon(a).callers.is_empty());
    assert!(!pending.is_empty());
    assert_eq!(pending.abandon(b).callers, vec![3]);
}

#[test]
fn addresses_are_tried_in_order() {
    assert_eq!(connect_peer_if_necessary(true), ConnectPlan::Return);
    assert_eq!(connect_peer_if_necessary(false), ConnectPlan::Attempt);
    assert_eq!(
        connect_target(&SocketAddress::OnionV2([0; 12]), true),
        Err(Error::InvalidSocketAddress)
    );
    let onion =
        SocketAddress::OnionV3 { ed25519_pubkey: [0; 32], checksum: 0, version: 3, port: 1 };
    assert_eq!(connect_target(&onion, false), Err(Error::InvalidSocketAddress));
    assert_eq!(connect_target(&onion, true), Ok(ConnectTarget::TorProxy));
    let tcp = SocketAddress::TcpIpV4 { addr: [127, 0, 0, 1], port: 1 };
    assert_eq!(connect_target(&tcp, false), Ok(ConnectTarget::Direct));

    assert_eq!(first_connect_step(None), ConnectStep::Failed(Error::InvalidSocketAddress));
    assert_eq!(first_connect_step(Some(0)), ConnectStep::Failed(Error::InvalidSocketAddress));
    assert_eq!(first_connect_step(Some(2)), ConnectStep::Try(0));
    assert_eq!(after_connect_step(0, 2, Err(Error::ConnectionFailed)), ConnectStep::Try(1));
    assert_eq!(
        after_connect_step(1, 2, Err(Error::ConnectionFailed)),
        ConnectStep::Failed(Error::ConnectionFailed)
    );
    assert_eq!(after_connect_step(0, 2, Ok(())), ConnectStep::Connected);

    assert_eq!(
        await_connection(ConnectionEvent::NotMade),
        Some(Err(Error::ConnectionFailed))
    );
    assert_eq!(await_connection(ConnectionEvent::Closed), Some(Err(Error::ConnectionFailed)));
    assert_eq!(await_connection(ConnectionEvent::Waited { welcomed: false }), None);
    assert_eq!(await_connection(ConnectionEvent::Waited { welcomed: true }), Some(Ok(())));
}
