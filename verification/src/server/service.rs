//! Which request is handled how, and what is answered.
use crate::text::text_eq;
use vstd::prelude::*;
use vstd::string::*;

verus! {

/// The requests that are served.
#[derive(Clone, Copy, Debug, PartialEq, Eq, Structural)]
pub enum ApiCall {
    GetNodeInfo,
    OnchainReceive,
    OnchainSend,
    Bolt11Receive,
    Bolt11Send,
    Bolt12Receive,
    Bolt12Send,
    OpenChannel,
    CloseChannel,
    ListChannels,
}

impl ApiCall {
    /// The path of a request.
    pub open spec fn path(self) -> Seq<char> {
        match self {
            ApiCall::GetNodeInfo => "GetNodeInfo"@,
            ApiCall::OnchainReceive => "OnchainReceive"@,
            ApiCall::OnchainSend => "OnchainSend"@,
            ApiCall::Bolt11Receive => "Bolt11Receive"@,
            ApiCall::Bolt11Send => "Bolt11Send"@,
            ApiCall::Bolt12Receive => "Bolt12Receive"@,
            ApiCall::Bolt12Send => "Bolt12Send"@,
            ApiCall::OpenChannel => "OpenChannel"@,
            ApiCall::CloseChannel => "CloseChannel"@,
            ApiCall::ListChannels => "ListChannels"@,
        }
    }
}

/// An answer.
#[derive(Debug)]
pub struct ApiResponse {
    pub status: u16,
    pub body: Vec<u8>,
}

pub const STATUS_OK: u16 = 200;

pub const STATUS_BAD_REQUEST: u16 = 400;

pub const STATUS_INTERNAL_SERVER_ERROR: u16 = 500;

/// The bytes of a text.
pub open spec fn text_bytes(text: Seq<char>) -> Seq<u8> {
    vstd::utf8::encode_utf8(text)
}

fn bytes_of(text: &str) -> (bytes: Vec<u8>)
    ensures
        bytes@ == text_bytes(text@),
{
    let mut bytes: Vec<u8> = Vec::new();
    bytes.extend_from_slice(text.as_bytes());
    assert(bytes@ =~= text_bytes(text@));
    bytes
}

/// The request that a path, without the slash that it begins with, stands for.
fn call_named(name: &str) -> (call: Option<ApiCall>)
    ensures
        match call {
            Some(call) => name@ == call.path(),
            None => forall|call: ApiCall| name@ != #[trigger] call.path(),
        },
{
    if text_eq(name, "GetNodeInfo") {
        Some(ApiCall::GetNodeInfo)
    } else if text_eq(name, "OnchainReceive") {
        Some(ApiCall::OnchainReceive)
    } else if text_eq(name, "OnchainSend") {
        Some(ApiCall::OnchainSend)
    } else if text_eq(name, "Bolt11Receive") {
        Some(ApiCall::Bolt11Receive)
    } else if text_eq(name, "Bolt11Send") {
        Some(ApiCall::Bolt11Send)
    } else if text_eq(name, "Bolt12Receive") {
        Some(ApiCall::Bolt12Receive)
    } else if text_eq(name, "Bolt12Send") {
        Some(ApiCall::Bolt12Send)
    } else if text_eq(name, "OpenChannel") {
        Some(ApiCall::OpenChannel)
    } else if text_eq(name, "CloseChannel") {
        Some(ApiCall::CloseChannel)
    } else if text_eq(name, "ListChannels") {
        Some(ApiCall::ListChannels)
    } else {
        None
    }
}

/// The request that a path stands for, or the answer to a path that stands for none. What the path
/// begins with, a slash, does not count.
pub fn route(path: &str) -> (call: Result<ApiCall, ApiResponse>)
    requires
        path@.len() > 0,
    ensures
        match call {
            Ok(call) => path@.subrange(1, path@.len() as int) == call.path(),
            Err(response) => {
                &&& forall|call: ApiCall|
                    path@.subrange(1, path@.len() as int) != #[trigger] call.path()
                &&& response.status == STATUS_BAD_REQUEST
                &&& response.body@ == text_bytes(
                    "Unknown request: "@ + path@.subrange(1, path@.len() as int),
                )
            },
        },
{
    let name = path.substring_char(1, path.unicode_len());
    match call_named(name) {
        Some(call) => Ok(call),
        None => {
            let mut text = "Unknown request: ".to_owned();
            text.append(name);
            Err(ApiResponse { status: STATUS_BAD_REQUEST, body: bytes_of(text.as_str()) })
        },
    }
}

/// What came of handling a request.
#[derive(Debug)]
pub enum Handled {
    /// It could not be decoded.
    NotDecoded,
    /// The node answered with these bytes.
    Answered(Vec<u8>),
    /// The node failed, for a reason that it puts like this.
    Failed(String),
}

/// The answer to a request.
pub fn respond(handled: Handled) -> (response: ApiResponse)
    ensures
        match handled {
            Handled::NotDecoded => response.status == STATUS_BAD_REQUEST && response.body@
                == text_bytes("Error parsing request"@),
            Handled::Answered(bytes) => response == (ApiResponse {
                status: STATUS_OK,
                body: bytes,
            }),
            Handled::Failed(reason) => response.status == STATUS_INTERNAL_SERVER_ERROR
                && response.body@ == text_bytes(reason@),
        },
{
    match handled {
        Handled::NotDecoded => ApiResponse {
            status: STATUS_BAD_REQUEST,
            body: bytes_of("Error parsing request"),
        },
        Handled::Answered(bytes) => ApiResponse { status: STATUS_OK, body: bytes },
        Handled::Failed(reason) => ApiResponse {
            status: STATUS_INTERNAL_SERVER_ERROR,
            body: bytes_of(reason.as_str()),
        },
    }
}

/// No two requests have the same path.
pub proof fn law_paths_are_distinct(a: ApiCall, b: ApiCall)
    requires
        a.path() == b.path(),
    ensures
        a == b,
{
    reveal_strlit("GetNodeInfo");
    reveal_strlit("OnchainReceive");
    reveal_strlit("OnchainSend");
    reveal_strlit("Bolt11Receive");
    reveal_strlit("Bolt11Send");
    reveal_strlit("Bolt12Receive");
    reveal_strlit("Bolt12Send");
    reveal_strlit("OpenChannel");
    reveal_strlit("CloseChannel");
    reveal_strlit("ListChannels");
    if a != b {
        let p = a.path();
        assert(p.len() == b.path().len());
        assert(p[0] == b.path()[0] && p[5] == b.path()[5] && p[7] == b.path()[7]);
    }
}

/// Each call has the path of its name, and texts are answered in UTF-8.
pub proof fn law_calls_have_the_paths_of_their_names(text: Seq<char>)
    ensures
        ApiCall::GetNodeInfo.path() == "GetNodeInfo"@,
        ApiCall::OnchainReceive.path() == "OnchainReceive"@,
        ApiCall::OnchainSend.path() == "OnchainSend"@,
        ApiCall::Bolt11Receive.path() == "Bolt11Receive"@,
        ApiCall::Bolt11Send.path() == "Bolt11Send"@,
        ApiCall::Bolt12Receive.path() == "Bolt12Receive"@,
        ApiCall::Bolt12Send.path() == "Bolt12Send"@,
        ApiCall::OpenChannel.path() == "OpenChannel"@,
        ApiCall::CloseChannel.path() == "CloseChannel"@,
        ApiCall::ListChannels.path() == "ListChannels"@,
        vstd::utf8::decode_utf8(text_bytes(text)) == text,
        vstd::utf8::valid_utf8(text_bytes(text)),
{
    vstd::utf8::encode_utf8_decode_utf8(text);
    vstd::utf8::encode_utf8_valid_utf8(text);
}

/// A path leads to the call of its name, and a path of no name is answered as a bad request. What is answered
/// goes by how the request was handled.
pub proof fn law_requests_are_answered(
    call: ApiCall,
    path: &str,
    routed: Result<ApiCall, ApiResponse>,
    bytes: Vec<u8>,
    answered: ApiResponse,
    reason: String,
    failed: ApiResponse,
    refused: ApiResponse,
)
    requires
        path@ == seq!['/'] + call.path(),
        call_ensures(route, (path,), routed),
        call_ensures(respond, (Handled::Answered(bytes),), answered),
        call_ensures(respond, (Handled::Failed(reason),), failed),
        call_ensures(respond, (Handled::NotDecoded,), refused),
    ensures
        routed matches Ok(found) && found.path() == call.path(),
        answered.status == 200 && answered.body == bytes,
        failed.status == 500 && failed.body@ == vstd::utf8::encode_utf8(reason@),
        refused.status == 400,
{
    assert(path@.subrange(1, path@.len() as int) =~= call.path());
}

} // verus!
