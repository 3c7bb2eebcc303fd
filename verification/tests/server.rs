use ldk_node::error::Error;
use ldk_node::server::api::{
    bolt11_send_call, bolt11_send_response, handle_bolt11_receive_request,
    handle_bolt11_send_request, handle_open_channel, open_channel_call, open_channel_response,
    Bolt11ReceiveCall, Bolt11ReceiveRequest, Bolt11SendCall, Bolt11SendRequest,
    OpenChannelRequest,
};
use ldk_node::server::service::{respond, route, ApiCall, Handled};
use ldk_node::types::{PaymentId, PublicKey, UserChannelId};

const INVOICE: &str = "lnbc25m1pvjluezpp5qqqsyqcyq5rqwzqfqqqsyqcyq5rqwzqfqqqsyqcyq5rqwzqfqypqdq5vdhkven9v5sxyetpdeessp5zyg3zyg3zyg3zyg3zyg3zyg3zyg3zyg3zyg3zyg3zyg3zyg3zygs9q5sqqqqqqqqqqqqqqqpqsq67gye39hfg3zd8rgc80k32tvy9xk2xunwm5lzexnvpx6fd77en8qaq424dxgt56cag2dpt359k3ssyhetktkpqh24jqnjyw6uqd08sgptq44qu";
const NODE_ID: &str = "0279be667ef9dcbbac55a06295ce870b07029bfcdb2dce28d959f2815b16f81798";

#[test]
fn an_invoice_has_an_amount_or_none() {
    let request = |amount_msat: Option<u64>| Bolt11ReceiveRequest {
        amount_msat,
        description: "coffee".to_string(),
        expiry_secs: 60,
    };
    match handle_bolt11_receive_request(request(Some(5))) {
        Bolt11ReceiveCall::Receive { amount_msat, description, expiry_secs } => {
            assert_eq!((amount_msat, description.as_str(), expiry_secs), (5, "coffee", 60));
        }
        other => panic!("{:?}", other),
    }
    match handle_bolt11_receive_request(request(None)) {
        Bolt11ReceiveCall::ReceiveVariableAmount { description, expiry_secs } => {
            assert_eq!((description.as_str(), expiry_secs), ("coffee", 60));
        }
        other => panic!("{:?}", other),
    }
}

#[test]
fn only_invoices_are_paid() {
    let request = |invoice: &str, amount_msat: Option<u64>| Bolt11SendRequest {
        invoice: invoice.to_string(),
        amount_msat,
    };
    match handle_bolt11_send_request(request(INVOICE, None)) {
        Ok(Bolt11SendCall::Send { invoice }) => assert_eq!(invoice, INVOICE),
        other => panic!("{:?}", other),
    }
    match handle_bolt11_send_request(request(INVOICE, Some(9))) {
        Ok(Bolt11SendCall::SendUsingAmount { invoice, amount_msat }) => {
            assert_eq!((invoice.as_str(), amount_msat), (INVOICE, 9));
        }
        other => panic!("{:?}", other),
    }
    let refused = handle_bolt11_send_request(request("lnbc1", None));
    assert_eq!(refused.unwrap_err(), Error::InvalidInvoice);
    let refused = bolt11_send_call(request(INVOICE, None), false);
    assert_eq!(refused.unwrap_err(), Error::InvalidInvoice);
    assert_eq!(bolt11_send_response(PaymentId([3; 32])), vec![3; 32]);
}

fn open(node_pubkey: &str, address: &str) -> OpenChannelRequest {
    OpenChannelRequest {
        node_pubkey: node_pubkey.to_string(),
        address: address.to_string(),
        channel_amount_sats: 100,
        push_to_counterparty_msat: Some(7),
        announce_channel: true,
    }
}

#[test]
fn channels_are_opened_to_nodes_with_a_key_and_an_address() {
    let call = handle_open_channel(open(NODE_ID, "127.0.0.1:9735")).unwrap();
    assert_eq!(ldk_node::hex::to_string(&call.node_id.0), NODE_ID);
    assert_eq!((call.address.as_str(), call.channel_amount_sats), ("127.0.0.1:9735", 100));
    assert_eq!((call.push_to_counterparty_msat, call.announce_channel), (Some(7), true));

    // The key is looked at first.
    let refused = handle_open_channel(open("02", "nowhere"));
    assert_eq!(refused.unwrap_err(), Error::InvalidPublicKey);
    let refused = handle_open_channel(open(NODE_ID, "nowhere"));
    assert_eq!(refused.unwrap_err(), Error::InvalidSocketAddress);
    assert!(handle_open_channel(open(NODE_ID, "example.com:9735")).is_ok());
    let key = PublicKey([2; 33]);
    assert!(open_channel_call(open("", ""), Some(key), true).is_ok());
    assert_eq!(
        open_channel_call(open("", ""), None, false).unwrap_err(),
        Error::InvalidPublicKey
    );
    let mut expected = vec![0u8; 16];
    expected[14] = 1;
    expected[15] = 2;
    assert_eq!(open_channel_response(UserChannelId(0x0102)), expected);
}

#[test]
fn every_path_stands_for_one_request() {
    let paths = [
        ("/GetNodeInfo", ApiCall::GetNodeInfo),
        ("/OnchainReceive", ApiCall::OnchainReceive),
        ("/OnchainSend", ApiCall::OnchainSend),
        ("/Bolt11Receive", ApiCall::Bolt11Receive),
        ("/Bolt11Send", ApiCall::Bolt11Send),
        ("/Bolt12Receive", ApiCall::Bolt12Receive),
        ("/Bolt12Send", ApiCall::Bolt12Send),
        ("/OpenChannel", ApiCall::OpenChannel),
        ("/CloseChannel", ApiCall::CloseChannel),
        ("/ListChannels", ApiCall::ListChannels),
    ];
    for (path, call) in paths {
        assert_eq!(route(path).ok(), Some(call));
    }
    let unknown = route("/Nothing").unwrap_err();
    assert_eq!((unknown.status, unknown.body), (400, b"Unknown request: Nothing".to_vec()));
    assert!(route("/").is_err());
}

#[test]
fn answers_carry_a_status() {
    let answered = respond(Handled::Answered(vec![1, 2]));
    assert_eq!((answered.status, answered.body), (200, vec![1, 2]));
    let malformed = respond(Handled::NotDecoded);
    assert_eq!((malformed.status, malformed.body), (400, b"Error parsing request".to_vec()));
    let failed = respond(Handled::Failed("no route".to_string()));
    assert_eq!((failed.status, failed.body), (500, b"no route".to_vec()));
}
