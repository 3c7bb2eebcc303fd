//! What the requests ask the node for.
use crate::error::Error;
use crate::tlv::push_be;
use crate::types::{PaymentId, PublicKey, UserChannelId};
use vstd::prelude::*;

verus! {

/// Whether a text is an invoice, going by `lightning::bolt11_invoice::Bolt11Invoice::from_str`.
pub uninterp spec fn is_invoice(text: Seq<char>) -> bool;

/// Whether a text is an invoice.
///
/// Calls `lightning::bolt11_invoice::Bolt11Invoice::from_str`, which depends on the text alone.
#[verifier::external_body]
fn check_invoice(text: &str) -> (valid: bool)
    ensures
        valid == is_invoice(text@),
{
    <lightning::bolt11_invoice::Bolt11Invoice as std::str::FromStr>::from_str(text).is_ok()
}

/// The public key that a text stands for, compressed, as `bitcoin::secp256k1::PublicKey::from_str` gives
/// it.
pub uninterp spec fn public_key_of(text: Seq<char>) -> Option<Seq<u8>>;

/// The public key that a text stands for.
///
/// Calls `bitcoin::secp256k1::PublicKey::from_str`, and `serialize` on what it gives. Both depend on the
/// text alone.
#[verifier::external_body]
fn parse_public_key(text: &str) -> (key: Option<PublicKey>)
    ensures
        match key {
            Some(key) => public_key_of(text@) == Some(key.0@),
            None => public_key_of(text@) is None,
        },
{
    match <bitcoin::secp256k1::PublicKey as std::str::FromStr>::from_str(text) {
        Ok(key) => Some(PublicKey(key.serialize())),
        Err(_) => None,
    }
}

/// Whether a text is the address of a node, going by `lightning::ln::msgs::SocketAddress::from_str`.
pub uninterp spec fn is_socket_address(text: Seq<char>) -> bool;

/// Whether a text is the address of a node.
///
/// Calls `lightning::ln::msgs::SocketAddress::from_str`, which depends on the text alone.
#[verifier::external_body]
fn check_socket_address(text: &str) -> (valid: bool)
    ensures
        valid == is_socket_address(text@),
{
    <lightning::ln::msgs::SocketAddress as std::str::FromStr>::from_str(text).is_ok()
}

/// A request for an invoice.
#[derive(Debug)]
pub struct Bolt11ReceiveRequest {
    pub amount_msat: Option<u64>,
    pub description: String,
    pub expiry_secs: u32,
}

/// What the node is asked for by a request for an invoice.
#[derive(Debug)]
pub enum Bolt11ReceiveCall {
    Receive { amount_msat: u64, description: String, expiry_secs: u32 },
    /// The payer chooses the amount.
    ReceiveVariableAmount { description: String, expiry_secs: u32 },
}

/// What the node is asked for by a request for an invoice.
pub fn handle_bolt11_receive_request(request: Bolt11ReceiveRequest) -> (call: Bolt11ReceiveCall)
    ensures
        call == (match request.amount_msat {
            Some(amount_msat) => Bolt11ReceiveCall::Receive {
                amount_msat,
                description: request.description,
                expiry_secs: request.expiry_secs,
            },
            None => Bolt11ReceiveCall::ReceiveVariableAmount {
                description: request.description,
                expiry_secs: request.expiry_secs,
            },
        }),
{
    match request.amount_msat {
        Some(amount_msat) => Bolt11ReceiveCall::Receive {
            amount_msat,
            description: request.description,
            expiry_secs: request.expiry_secs,
        },
        None => Bolt11ReceiveCall::ReceiveVariableAmount {
            description: request.description,
            expiry_secs: request.expiry_secs,
        },
    }
}

/// A request to pay an invoice.
#[derive(Debug)]
pub struct Bolt11SendRequest {
    pub invoice: String,
    pub amount_msat: Option<u64>,
}

/// What the node is asked for by a request to pay an invoice.
#[derive(Debug)]
pub enum Bolt11SendCall {
    Send { invoice: String },
    SendUsingAmount { invoice: String, amount_msat: u64 },
}

/// What the node is asked for by a request to pay an invoice, given whether it is one.
pub fn bolt11_send_call(request: Bolt11SendRequest, valid: bool) -> (call: Result<
    Bolt11SendCall,
    Error,
>)
    ensures
        call == (if !valid {
            Err::<Bolt11SendCall, Error>(Error::InvalidInvoice)
        } else {
            match request.amount_msat {
                None => Ok::<Bolt11SendCall, Error>(
                    Bolt11SendCall::Send { invoice: request.invoice },
                ),
                Some(amount_msat) => Ok::<Bolt11SendCall, Error>(
                    Bolt11SendCall::SendUsingAmount { invoice: request.invoice, amount_msat },
                ),
            }
        }),
{
    if !valid {
        return Err(Error::InvalidInvoice);
    }
    match request.amount_msat {
        None => Ok(Bolt11SendCall::Send { invoice: request.invoice }),
        Some(amount_msat) => Ok(
            Bolt11SendCall::SendUsingAmount { invoice: request.invoice, amount_msat },
        ),
    }
}

/// What the node is asked for by a request to pay an invoice.
pub fn handle_bolt11_send_request(request: Bolt11SendRequest) -> (call: Result<
    Bolt11SendCall,
    Error,
>)
    ensures
        call == (if !is_invoice(request.invoice@) {
            Err::<Bolt11SendCall, Error>(Error::InvalidInvoice)
        } else {
            match request.amount_msat {
                None => Ok::<Bolt11SendCall, Error>(
                    Bolt11SendCall::Send { invoice: request.invoice },
                ),
                Some(amount_msat) => Ok::<Bolt11SendCall, Error>(
                    Bolt11SendCall::SendUsingAmount { invoice: request.invoice, amount_msat },
                ),
            }
        }),
{
    let valid = check_invoice(request.invoice.as_str());
    bolt11_send_call(request, valid)
}

/// The answer to a request to pay an invoice: the bytes of the payment's id.
pub fn bolt11_send_response(payment_id: PaymentId) -> (bytes: Vec<u8>)
    ensures
        bytes@ == payment_id.0@,
{
    let mut bytes: Vec<u8> = Vec::new();
    bytes.extend_from_slice(payment_id.0.as_slice());
    assert(bytes@ =~= payment_id.0@);
    bytes
}

/// A request to open a channel.
#[derive(Debug)]
pub struct OpenChannelRequest {
    pub node_pubkey: String,
    pub address: String,
    pub channel_amount_sats: u64,
    pub push_to_counterparty_msat: Option<u64>,
    pub announce_channel: bool,
}

/// What the node is asked for by a request to open a channel.
#[derive(Debug)]
pub struct OpenChannelCall {
    pub node_id: PublicKey,
    pub address: String,
    pub channel_amount_sats: u64,
    pub push_to_counterparty_msat: Option<u64>,
    pub announce_channel: bool,
}

/// Whether a call, or its absence, is the answer to a request to open a channel, given the key and
/// whether the address is one.
pub open spec fn opens_channel(
    call: Result<OpenChannelCall, Error>,
    request: OpenChannelRequest,
    key: Option<Seq<u8>>,
    valid_address: bool,
) -> bool {
    match key {
        None => call == Err::<OpenChannelCall, Error>(Error::InvalidPublicKey),
        Some(key) => if !valid_address {
            call == Err::<OpenChannelCall, Error>(Error::InvalidSocketAddress)
        } else {
            call matches Ok(c) && c.node_id.0@ == key && c == (OpenChannelCall {
                node_id: c.node_id,
                address: request.address,
                channel_amount_sats: request.channel_amount_sats,
                push_to_counterparty_msat: request.push_to_counterparty_msat,
                announce_channel: request.announce_channel,
            })
        },
    }
}

/// What the node is asked for by a request to open a channel, given the key and whether the address is
/// one.
pub fn open_channel_call(
    request: OpenChannelRequest,
    node_id: Option<PublicKey>,
    valid_address: bool,
) -> (call: Result<OpenChannelCall, Error>)
    ensures
        opens_channel(
            call,
            request,
            match node_id {
                Some(node_id) => Some(node_id.0@),
                None => None,
            },
            valid_address,
        ),
{
    let node_id = match node_id {
        Some(node_id) => node_id,
        None => return Err(Error::InvalidPublicKey),
    };
    if !valid_address {
        return Err(Error::InvalidSocketAddress);
    }
    Ok(
        OpenChannelCall {
            node_id,
            address: request.address,
            channel_amount_sats: request.channel_amount_sats,
            push_to_counterparty_msat: request.push_to_counterparty_msat,
            announce_channel: request.announce_channel,
        },
    )
}

/// What the node is asked for by a request to open a channel. The key is looked at first.
pub fn handle_open_channel(request: OpenChannelRequest) -> (call: Result<OpenChannelCall, Error>)
    ensures
        opens_channel(
            call,
            request,
            public_key_of(request.node_pubkey@),
            is_socket_address(request.address@),
        ),
{
    let node_id = parse_public_key(request.node_pubkey.as_str());
    let valid_address = check_socket_address(request.address.as_str());
    open_channel_call(request, node_id, valid_address)
}

/// The answer to a request to open a channel: the big-endian bytes of the channel's id.
pub fn open_channel_response(user_channel_id: UserChannelId) -> (bytes: Vec<u8>)
    ensures
        bytes@ == crate::tlv::be_bytes(user_channel_id.0 as nat, 16),
{
    let mut bytes: Vec<u8> = Vec::new();
    push_be(&mut bytes, user_channel_id.0, 16);
    assert(bytes@ =~= crate::tlv::be_bytes(user_channel_id.0 as nat, 16));
    bytes
}

/// A channel is opened with the peer of the key and with all that the request says. Without a key nothing
/// else is looked at, and an address has to be one.
pub proof fn law_channels_are_opened_as_requested(
    call: Result<OpenChannelCall, Error>,
    request: OpenChannelRequest,
    key: Option<Seq<u8>>,
    valid_address: bool,
)
    requires
        opens_channel(call, request, key, valid_address),
    ensures
        call is Ok <==> key is Some && valid_address,
        key is None ==> call == Err::<OpenChannelCall, Error>(Error::InvalidPublicKey),
        key is Some && !valid_address ==> call == Err::<OpenChannelCall, Error>(
            Error::InvalidSocketAddress,
        ),
        call matches Ok(c) ==> {
            &&& key == Some(c.node_id.0@)
            &&& c.address == request.address
            &&& c.channel_amount_sats == request.channel_amount_sats
            &&& c.push_to_counterparty_msat == request.push_to_counterparty_msat
            &&& c.announce_channel == request.announce_channel
        },
{
}

/// An invoice is asked for with the amount of the request, or with none where it has none, and with its
/// description and expiry.
pub proof fn law_invoices_are_asked_for_as_requested(
    request: Bolt11ReceiveRequest,
    call: Bolt11ReceiveCall,
)
    requires
        call_ensures(handle_bolt11_receive_request, (request,), call),
    ensures
        request.amount_msat matches Some(amount) ==> call == (Bolt11ReceiveCall::Receive {
            amount_msat: amount,
            description: request.description,
            expiry_secs: request.expiry_secs,
        }),
        request.amount_msat is None ==> call == (Bolt11ReceiveCall::ReceiveVariableAmount {
            description: request.description,
            expiry_secs: request.expiry_secs,
        }),
{
}

/// An invoice is paid, with the amount of the request where it has one, exactly if it is an invoice.
pub proof fn law_only_invoices_are_paid(
    request: Bolt11SendRequest,
    call: Result<Bolt11SendCall, Error>,
)
    requires
        call_ensures(handle_bolt11_send_request, (request,), call),
    ensures
        call is Ok <==> is_invoice(request.invoice@),
        call matches Err(e) ==> e == Error::InvalidInvoice,
        call is Ok && request.amount_msat is None ==> call->Ok_0 == (Bolt11SendCall::Send {
            invoice: request.invoice,
        }),
        call is Ok && request.amount_msat is Some ==> call->Ok_0
            == (Bolt11SendCall::SendUsingAmount {
            invoice: request.invoice,
            amount_msat: request.amount_msat->0,
        }),
{
}

} // verus!
