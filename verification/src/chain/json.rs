//! The calls that are made to a Bitcoin Core node, and its replies.
use crate::text::text_eq;
use crate::transaction::Transaction;
use crate::types::Txid;
use vstd::prelude::*;

verus! {

/// A number of a reply.
#[derive(Clone, Copy, Debug, PartialEq, Eq, Structural)]
pub struct JsonNumber {
    /// Its value, where it is a whole number that fits.
    pub whole: Option<u64>,
    /// Its value as a fee rate: what it comes to in satoshis per 1000 weight units where it stands
    /// for BTC per 1000 virtual bytes.
    pub as_fee_rate_sat_per_kwu: u64,
}

/// A value of a call or a reply.
#[derive(Debug)]
pub enum Json {
    Null,
    Bool(bool),
    Number(JsonNumber),
    Text(String),
    Array(Vec<Json>),
    Object(Vec<(String, Json)>),
}

impl Json {
    /// The position of a field of an object: the last one of that name.
    pub open spec fn field_position(fields: Seq<(String, Json)>, name: Seq<char>) -> Option<int>
        decreases fields.len(),
    {
        if fields.len() == 0 {
            None
        } else if fields.last().0@ == name {
            Some(fields.len() - 1)
        } else {
            Json::field_position(fields.drop_last(), name)
        }
    }

    /// The field of an object, if there is one of that name.
    pub open spec fn field(self, name: Seq<char>) -> Option<Json> {
        match self {
            Json::Object(fields) => match Json::field_position(fields@, name) {
                Some(i) => Some(fields@[i].1),
                None => None,
            },
            _ => None,
        }
    }

    /// Whether there is no value: no field of that name, or a null.
    pub open spec fn is_null_field(self, name: Seq<char>) -> bool {
        match self.field(name) {
            None => true,
            Some(value) => value is Null,
        }
    }

    /// The field of an object, if there is one of that name.
    pub fn get(&self, name: &str) -> (value: Option<&Json>)
        ensures
            match value {
                Some(v) => self.field(name@) == Some(*v),
                None => self.field(name@) is None,
            },
    {
        match self {
            Json::Object(fields) => {
                let mut i: usize = fields.len();
                assert(fields@.subrange(0, i as int) =~= fields@);
                while i > 0
                    invariant
                        i <= fields@.len(),
                        *self == Json::Object(*fields),
                        Json::field_position(fields@, name@) == Json::field_position(
                            fields@.subrange(0, i as int),
                            name@,
                        ),
                    decreases i,
                {
                    i -= 1;
                    proof {
                        let now = fields@.subrange(0, i + 1);
                        assert(now.drop_last() =~= fields@.subrange(0, i as int));
                        assert(now.last() == fields@[i as int]);
                    }
                    if text_eq(fields[i].0.as_str(), name) {
                        return Some(&fields[i].1);
                    }
                }
                None
            },
            _ => None,
        }
    }
}

/// Why a reply is of no use.
#[derive(Clone, Copy, Debug, PartialEq, Eq, Structural)]
pub enum ReplyError {
    /// The node reports errors of its own.
    Reported,
    /// The reply does not have the expected form.
    Malformed,
}

/// The reply to a call for a fee estimate, in satoshis per 1000 weight units.
#[derive(Clone, Copy, Debug, PartialEq, Eq, Structural)]
pub struct FeeResponse(pub u64);

/// The fee rate that a field holds.
pub open spec fn fee_rate_field(reply: Json, name: Seq<char>) -> Option<u64> {
    match reply.field(name) {
        Some(Json::Number(number)) => Some(number.as_fee_rate_sat_per_kwu),
        _ => None,
    }
}

fn read_fee_rate(reply: &Json, name: &str) -> (rate: Option<u64>)
    ensures
        rate == fee_rate_field(*reply, name@),
{
    match reply.get(name) {
        Some(Json::Number(number)) => Some(number.as_fee_rate_sat_per_kwu),
        _ => None,
    }
}

impl FeeResponse {
    /// Reads a reply. Errors that the node reports come first.
    pub fn from_reply(reply: &Json) -> (response: Result<Self, ReplyError>)
        ensures
            response == (if !reply.is_null_field("errors"@) {
                Err::<FeeResponse, ReplyError>(ReplyError::Reported)
            } else {
                match fee_rate_field(*reply, "feerate"@) {
                    Some(rate) => Ok::<FeeResponse, ReplyError>(FeeResponse(rate)),
                    None => Err::<FeeResponse, ReplyError>(ReplyError::Malformed),
                }
            }),
    {
        match reply.get("errors") {
            None => {},
            Some(Json::Null) => {},
            Some(_) => {
                return Err(ReplyError::Reported);
            },
        }
        match read_fee_rate(reply, "feerate") {
            Some(rate) => Ok(FeeResponse(rate)),
            None => Err(ReplyError::Malformed),
        }
    }
}

/// The reply to a call for the mempool's minimum fee rate, in satoshis per 1000 weight units.
#[derive(Clone, Copy, Debug, PartialEq, Eq, Structural)]
pub struct MempoolMinFeeResponse(pub u64);

impl MempoolMinFeeResponse {
    /// Reads a reply.
    pub fn from_reply(reply: &Json) -> (response: Result<Self, ReplyError>)
        ensures
            response == (match fee_rate_field(*reply, "mempoolminfee"@) {
                Some(rate) => Ok::<MempoolMinFeeResponse, ReplyError>(MempoolMinFeeResponse(rate)),
                None => Err::<MempoolMinFeeResponse, ReplyError>(ReplyError::Malformed),
            }),
    {
        match read_fee_rate(reply, "mempoolminfee") {
            Some(rate) => Ok(MempoolMinFeeResponse(rate)),
            None => Err(ReplyError::Malformed),
        }
    }
}

/// The reply to a call for a transaction.
#[derive(Debug)]
pub struct GetRawTransactionResponse(pub Transaction);

/// The bytes of the transaction that a reply holds.
pub open spec fn raw_transaction(reply: Json) -> Option<Seq<u8>> {
    match reply {
        Json::Text(text) => match crate::hex::hex_bytes(text@) {
            Some(bytes) => if bytes.len() <= 4_000_000 && crate::transaction::txid_of(
                bytes,
            ) is Some {
                Some(bytes)
            } else {
                None
            },
            None => None,
        },
        _ => None,
    }
}

impl GetRawTransactionResponse {
    /// Reads a reply: the text of a transaction.
    pub fn from_reply(reply: &Json) -> (response: Result<Self, ReplyError>)
        ensures
            match raw_transaction(*reply) {
                Some(bytes) => response matches Ok(response) && response.0.spec_bytes() == bytes
                    && crate::transaction::txid_of(bytes) == Some(response.0.spec_txid().0@),
                None => response == Err::<GetRawTransactionResponse, ReplyError>(
                    ReplyError::Malformed,
                ),
            },
    {
        match reply {
            Json::Text(text) => match Transaction::from_hex(text.as_str()) {
                Some(tx) => Ok(GetRawTransactionResponse(tx)),
                None => Err(ReplyError::Malformed),
            },
            _ => Err(ReplyError::Malformed),
        }
    }
}

/// A transaction whose text was written down is read back as it was.
pub proof fn law_raw_transaction_round_trip(bytes: Seq<u8>, reply: Json)
    requires
        crate::transaction::txid_of(bytes) is Some,
        bytes.len() <= 4_000_000,
        reply matches Json::Text(text) && text@ == crate::hex::hex_text(bytes),
    ensures
        raw_transaction(reply) == Some(bytes),
{
    crate::hex::law_hex_round_trip(bytes);
}

/// The reply to a call for the mempool.
#[derive(Debug)]
pub struct GetRawMempoolResponse(pub Vec<Txid>);

/// Whether a value is the text of a transaction identifier.
pub open spec fn shows_txid(value: Json, txid: Txid) -> bool {
    value matches Json::Text(text) && crate::hex::hex_bytes(text@) == Some(txid.0@.reverse())
}

/// Whether a value is the text of any transaction identifier.
pub open spec fn shows_any_txid(value: Json) -> bool {
    value matches Json::Text(text) && (crate::hex::hex_bytes(text@) matches Some(bytes)
        && bytes.len() == 32)
}

/// Whether all values are texts of transaction identifiers.
pub open spec fn show_txids(values: Seq<Json>) -> bool {
    forall|i: int| 0 <= i < values.len() ==> shows_any_txid(#[trigger] values[i])
}

impl GetRawMempoolResponse {
    /// Reads a reply: a list of transaction identifiers. A single one that cannot be read spoils the
    /// list.
    pub fn from_reply(reply: &Json) -> (response: Result<Self, ReplyError>)
        ensures
            match response {
                Ok(response) => reply matches Json::Array(values) && values@.len()
                    == response.0@.len() && forall|i: int|
                    0 <= i < values@.len() ==> shows_txid(
                        #[trigger] values@[i],
                        response.0@[i],
                    ),
                Err(e) => e == ReplyError::Malformed && (reply matches Json::Array(values)
                    ==> !show_txids(values@)),
            },
    {
        match reply {
            Json::Array(values) => {
                let mut txids: Vec<Txid> = Vec::new();
                let mut i: usize = 0;
                while i < values.len()
                    invariant
                        i <= values@.len(),
                        *reply == Json::Array(*values),
                        txids@.len() == i,
                        forall|j: int|
                            0 <= j < i ==> shows_txid(#[trigger] values@[j], txids@[j]),
                    decreases values@.len() - i,
                {
                    let txid = match &values[i] {
                        Json::Text(text) => Txid::parse(text.as_str()),
                        _ => None,
                    };
                    match txid {
                        Some(txid) => {
                            txids.push(txid);
                        },
                        None => {
                            assert(!shows_any_txid(values@[i as int]));
                            assert(!show_txids(values@));
                            return Err(ReplyError::Malformed);
                        },
                    }
                    i += 1;
                }
                Ok(GetRawMempoolResponse(txids))
            },
            _ => Err(ReplyError::Malformed),
        }
    }
}

/// A list of transaction identifiers that was written down as they are shown is read back as it was.
pub proof fn law_mempool_reply_round_trip(txids: Seq<Txid>, values: Seq<Json>, read: Seq<Txid>)
    requires
        values.len() == txids.len(),
        read.len() == txids.len(),
        forall|i: int|
            0 <= i < txids.len() ==> (#[trigger] values[i] matches Json::Text(text) && text@
                == txids[i].shown()),
        forall|i: int| 0 <= i < values.len() ==> shows_txid(#[trigger] values[i], read[i]),
    ensures
        read == txids,
{
    assert forall|i: int| 0 <= i < txids.len() implies read[i] == txids[i] by {
        assert(shows_txid(values[i], read[i]));
        txids[i].law_text_round_trip(read[i]);
    }
    assert(read =~= txids);
}

/// The reply to a call for an entry of the mempool.
#[derive(Clone, Copy, Debug, PartialEq, Eq, Structural)]
pub struct GetMempoolEntryResponse {
    pub time: u64,
    pub height: u32,
}

/// The whole number that a value is.
pub open spec fn whole_number(value: Json) -> Option<u64> {
    match value {
        Json::Number(number) => number.whole,
        _ => None,
    }
}

/// The entry that a reply holds.
pub open spec fn mempool_entry(reply: Json) -> Option<GetMempoolEntryResponse> {
    match (reply.field("time"@), reply.field("height"@)) {
        (Some(time), Some(height)) => match (whole_number(time), whole_number(height)) {
            (Some(time), Some(height)) => if height <= u32::MAX {
                Some(GetMempoolEntryResponse { time, height: height as u32 })
            } else {
                None
            },
            _ => None,
        },
        _ => None,
    }
}

/// Whether an object has the fields that reading an entry looks up: the time and, where that is a whole
/// number, the height.
pub open spec fn has_entry_fields(reply: Json) -> bool {
    &&& reply.field("time"@) is Some
    &&& whole_number(reply.field("time"@)->0) is Some ==> reply.field("height"@) is Some
}

fn read_whole_number(value: &Json) -> (number: Option<u64>)
    ensures
        number == whole_number(*value),
{
    match value {
        Json::Number(number) => number.whole,
        _ => None,
    }
}

impl GetMempoolEntryResponse {
    /// Reads a reply: no object at all, or one with a time and, where the time is a whole number, with
    /// a height.
    pub fn from_reply(reply: &Json) -> (response: Result<Self, ReplyError>)
        requires
            reply is Object ==> has_entry_fields(*reply),
        ensures
            response == (match mempool_entry(*reply) {
                Some(entry) => Ok::<GetMempoolEntryResponse, ReplyError>(entry),
                None => Err::<GetMempoolEntryResponse, ReplyError>(ReplyError::Malformed),
            }),
    {
        let time = match reply.get("time") {
            Some(value) => read_whole_number(value),
            None => None,
        };
        let height = match reply.get("height") {
            Some(value) => read_whole_number(value),
            None => None,
        };
        match (time, height) {
            (Some(time), Some(height)) => {
                if height <= u32::MAX as u64 {
                    Ok(GetMempoolEntryResponse { time, height: height as u32 })
                } else {
                    Err(ReplyError::Malformed)
                }
            },
            _ => Err(ReplyError::Malformed),
        }
    }
}

/// A call of the node's procedures.
#[derive(Debug)]
pub struct RpcCall {
    pub method: String,
    pub params: Vec<Json>,
}

/// A call, or a path of the node's REST interface.
#[derive(Debug)]
pub enum Request {
    Rpc(RpcCall),
    Rest(String),
}

impl Request {
    /// Whether this is a call of a procedure with one text for its parameter.
    pub open spec fn is_call_with_text(self, method: Seq<char>, text: Seq<char>) -> bool {
        &&& self matches Request::Rpc(call)
        &&& call.method@ == method
        &&& call.params@.len() == 1
        &&& call.params@[0] matches Json::Text(t)
        &&& t@ == text
    }

    /// Whether this is a call of a procedure without parameters.
    pub open spec fn is_plain_call(self, method: Seq<char>) -> bool {
        self matches Request::Rpc(call) && call.method@ == method && call.params@.len() == 0
    }

    /// Whether this asks for a path.
    pub open spec fn is_path(self, path: Seq<char>) -> bool {
        self matches Request::Rest(p) && p@ == path
    }
}

fn call_with_text(method: &str, text: String) -> (request: Request)
    ensures
        request.is_call_with_text(method@, text@),
{
    let mut params: Vec<Json> = Vec::new();
    params.push(Json::Text(text));
    Request::Rpc(RpcCall { method: method.to_owned(), params })
}

/// Through which interface the node is asked where it can be.
#[derive(Clone, Copy, Debug, PartialEq, Eq, Structural)]
pub enum ClientKind {
    Rpc,
    Rest,
}

/// The call that broadcasts a transaction. There is no other way to do so.
pub fn broadcast_transaction(tx: &Transaction) -> (request: Request)
    ensures
        request.is_call_with_text(
            "sendrawtransaction"@,
            crate::hex::hex_text(tx.spec_bytes()),
        ),
{
    call_with_text("sendrawtransaction", tx.to_hex())
}

/// The call that submits transactions together. There is no other way to do so.
pub fn submit_package(package: &Vec<Transaction>) -> (request: Request)
    ensures
        request matches Request::Rpc(call) && call.method@ == "submitpackage"@ && call.params@.len()
            == 1 && (call.params@[0] matches Json::Array(texts) && texts@.len() == package@.len()
            && forall|i: int|
            0 <= i < texts@.len() ==> (#[trigger] texts@[i] matches Json::Text(text) && text@
                == crate::hex::hex_text(package@[i].spec_bytes()))),
{
    let mut texts: Vec<Json> = Vec::new();
    let mut i: usize = 0;
    while i < package.len()
        invariant
            i <= package@.len(),
            texts@.len() == i,
            forall|j: int|
                0 <= j < i ==> (#[trigger] texts@[j] matches Json::Text(text) && text@
                    == crate::hex::hex_text(package@[j].spec_bytes())),
        decreases package@.len() - i,
    {
        texts.push(Json::Text(package[i].to_hex()));
        i += 1;
    }
    let mut params: Vec<Json> = Vec::new();
    params.push(Json::Array(texts));
    Request::Rpc(RpcCall { method: "submitpackage".to_owned(), params })
}

/// How careful a fee estimate is.
#[derive(Clone, Copy, Debug, PartialEq, Eq, Structural)]
pub enum FeeRateEstimationMode {
    Economical,
    Conservative,
}

impl FeeRateEstimationMode {
    pub open spec fn name(self) -> &'static str {
        match self {
            FeeRateEstimationMode::Economical => "ECONOMICAL",
            FeeRateEstimationMode::Conservative => "CONSERVATIVE",
        }
    }
}

/// The call that estimates the fee rate for a number of blocks. There is no other way to do so.
pub fn get_fee_estimate_for_target(num_blocks: JsonNumber, mode: FeeRateEstimationMode) -> (request:
    Request)
    ensures
        request matches Request::Rpc(call) && call.method@ == "estimatesmartfee"@
            && call.params@.len() == 2 && call.params@[0] == Json::Number(num_blocks) && (
        call.params@[1] matches Json::Text(text) && text@ == mode.name()@),
{
    let text = match mode {
        FeeRateEstimationMode::Economical => "ECONOMICAL".to_owned(),
        FeeRateEstimationMode::Conservative => "CONSERVATIVE".to_owned(),
    };
    let mut params: Vec<Json> = Vec::new();
    params.push(Json::Number(num_blocks));
    params.push(Json::Text(text));
    Request::Rpc(RpcCall { method: "estimatesmartfee".to_owned(), params })
}

/// The request for the mempool's minimum fee rate.
pub fn get_mempool_minimum_fee_rate(kind: ClientKind) -> (request: Request)
    ensures
        match kind {
            ClientKind::Rpc => request.is_plain_call("getmempoolinfo"@),
            ClientKind::Rest => request.is_path("mempool/info.json"@),
        },
{
    match kind {
        ClientKind::Rpc => Request::Rpc(
            RpcCall { method: "getmempoolinfo".to_owned(), params: Vec::new() },
        ),
        ClientKind::Rest => Request::Rest("mempool/info.json".to_owned()),
    }
}

/// The request for a transaction.
pub fn get_raw_transaction(kind: ClientKind, txid: &Txid) -> (request: Request)
    ensures
        match kind {
            ClientKind::Rpc => request.is_call_with_text("getrawtransaction"@, txid.shown()),
            ClientKind::Rest => request.is_path("tx/"@ + txid.shown() + ".json"@),
        },
{
    match kind {
        ClientKind::Rpc => call_with_text("getrawtransaction", txid.to_text()),
        ClientKind::Rest => {
            let mut path = "tx/".to_owned();
            path.append(txid.to_text().as_str());
            path.append(".json");
            Request::Rest(path)
        },
    }
}

/// The request for the identifiers of all transactions of the mempool.
pub fn get_raw_mempool(kind: ClientKind) -> (request: Request)
    ensures
        match kind {
            ClientKind::Rpc => request matches Request::Rpc(call) && call.method@
                == "getrawmempool"@ && call.params@ == seq![Json::Bool(false)],
            ClientKind::Rest => request.is_path("mempool/contents.json?verbose=false"@),
        },
{
    match kind {
        ClientKind::Rpc => {
            let mut params: Vec<Json> = Vec::new();
            params.push(Json::Bool(false));
            assert(params@ =~= seq![Json::Bool(false)]);
            Request::Rpc(RpcCall { method: "getrawmempool".to_owned(), params })
        },
        ClientKind::Rest => Request::Rest("mempool/contents.json?verbose=false".to_owned()),
    }
}

/// The call for an entry of the mempool. There is no other way to ask for it.
pub fn get_mempool_entry(txid: &Txid) -> (request: Request)
    ensures
        request.is_call_with_text("getmempoolentry"@, txid.shown()),
{
    call_with_text("getmempoolentry", txid.to_text())
}

/// How a request ended.
#[derive(Debug)]
pub enum CallEnd<T> {
    /// With a reply.
    Reply(T),
    /// The node refused the call, with a code.
    RpcError(i64),
    /// The node answered the path with an HTTP status.
    HttpError(HttpError),
    /// Anything else went wrong.
    OtherError,
}

/// An answer that is no reply.
#[derive(Debug)]
pub struct HttpError {
    pub status_code: String,
    pub contents: Vec<u8>,
}

impl HttpError {
    /// The error in words.
    pub open spec fn spec_message(self) -> Seq<char> {
        "status_code: "@ + self.status_code@ + ", contents: "@ + lossy_text(self.contents@)
    }

    /// The error in words.
    pub fn message(&self) -> (text: String)
        ensures
            text@ == self.spec_message(),
    {
        let mut text = "status_code: ".to_owned();
        text.append(self.status_code.as_str());
        text.append(", contents: ");
        let contents = text_of_bytes(self.contents.as_slice());
        text.append(contents.as_str());
        text
    }

    /// Whether the error is put in these words, with this text for its contents.
    pub open spec fn is_put_as(self, message: Seq<char>, contents: Seq<char>) -> bool {
        &&& is_http_message(message, self.status_code@, contents)
        &&& self.contents@ == vstd::utf8::encode_utf8(contents)
    }

    /// The error that is put in these words. There is none where they are no such error.
    pub fn from_message(message: &str) -> (error: Option<HttpError>)
        ensures
            match error {
                Some(read) => exists|contents: Seq<char>| #[trigger]
                    read.is_put_as(message@, contents),
                None => forall|status_code: Seq<char>, contents: Seq<char>|
                    !#[trigger] is_http_message(message@, status_code, contents),
            },
    {
        proof {
            reveal_strlit("status_code: ");
            reveal_strlit(", contents: ");
        }
        let n: usize = message.unicode_len();
        if n < 13 || !text_eq(message.substring_char(0, 13), "status_code: ") {
            proof {
                assert forall|status_code: Seq<char>, contents: Seq<char>|
                    !#[trigger] is_http_message(message@, status_code, contents) by {
                    if is_http_message(message@, status_code, contents) {
                        assert(message@.subrange(0, 13) =~= "status_code: "@);
                    }
                }
            }
            return None;
        }
        let mut comma: usize = 13;
        while comma < n && message.get_char(comma) != ','
            invariant
                13 <= comma <= n,
                n == message@.len(),
                forall|i: int| 13 <= i < comma ==> #[trigger] message@[i] != ',',
            decreases n - comma,
        {
            comma += 1;
        }
        proof {
            assert forall|status_code: Seq<char>, contents: Seq<char>| #[trigger]
                is_http_message(message@, status_code, contents) implies comma == 13
                + status_code.len() && n >= comma + 12 && message@.subrange(
                comma as int,
                comma + 12,
            ) == ", contents: "@ by {
                let at: int = 13 + status_code.len() as int;
                assert(message@[at] == ',');
                if comma < at {
                    assert(message@[comma as int] == status_code[comma - 13]);
                }
                assert(message@.subrange(at, at + 12) =~= ", contents: "@);
            }
        }
        if n - comma < 12 || !text_eq(message.substring_char(comma, comma + 12), ", contents: ") {
            return None;
        }
        let status_code = message.substring_char(13, comma).to_owned();
        let shown = message.substring_char(comma + 12, n);
        let mut contents: Vec<u8> = Vec::new();
        contents.extend_from_slice(shown.as_bytes());
        proof {
            assert(contents@ =~= vstd::utf8::encode_utf8(shown@));
            assert(message@ =~= "status_code: "@ + status_code@ + ", contents: "@ + shown@);
            assert forall|i: int| 0 <= i < status_code@.len() implies #[trigger] status_code@[i]
                != ',' by {
                assert(message@[13 + i] != ',');
            }
        }
        let error = Some(HttpError { status_code, contents });
        assert(error->0.is_put_as(message@, shown@));
        error
    }
}

/// Whether a text puts an error in words: its status, which has no comma, and the text of its contents.
pub open spec fn is_http_message(
    message: Seq<char>,
    status_code: Seq<char>,
    contents: Seq<char>,
) -> bool {
    &&& message == "status_code: "@ + status_code + ", contents: "@ + contents
    &&& forall|i: int| 0 <= i < status_code.len() ==> #[trigger] status_code[i] != ','
}

/// The words of an error are read as one of the same status, and of no other.
pub proof fn law_http_messages_show_the_status(
    error: HttpError,
    status_code: Seq<char>,
    contents: Seq<char>,
)
    requires
        forall|i: int| 0 <= i < error.status_code@.len() ==> #[trigger] error.status_code@[i] != ',',
    ensures
        is_http_message(error.spec_message(), error.status_code@, lossy_text(error.contents@)),
        is_http_message(error.spec_message(), status_code, contents) ==> status_code
            == error.status_code@ && contents == lossy_text(error.contents@),
{
    reveal_strlit("status_code: ");
    reveal_strlit(", contents: ");
    let message = error.spec_message();
    let (own, text) = (error.status_code@, lossy_text(error.contents@));
    if is_http_message(message, status_code, contents) {
        assert(message[13 + own.len() as int] == ',');
        assert(message[13 + status_code.len() as int] == ',');
        if own.len() < status_code.len() {
            assert(message[13 + own.len() as int] == status_code[own.len() as int]);
        } else if status_code.len() < own.len() {
            assert(message[13 + status_code.len() as int] == own[status_code.len() as int]);
        }
        let n = own.len() as int;
        assert(status_code =~= message.subrange(13, 13 + n));
        assert(own =~= message.subrange(13, 13 + n));
        assert(contents =~= message.skip(25 + n));
        assert(text =~= message.skip(25 + n));
    }
}

/// The text that a list of bytes holds, as `String::from_utf8_lossy` gives it.
pub uninterp spec fn lossy_text(bytes: Seq<u8>) -> Seq<char>;

/// The text that a list of bytes holds.
///
/// Calls `String::from_utf8_lossy`, which reads the bytes as UTF-8: where they are valid UTF-8 the text
/// is the one they encode, and every invalid part is replaced by a fixed character.
#[verifier::external_body]
fn text_of_bytes(bytes: &[u8]) -> (text: String)
    ensures
        text@ == lossy_text(bytes@),
        vstd::utf8::valid_utf8(bytes@) ==> text@ == vstd::utf8::decode_utf8(bytes@),
{
    String::from_utf8_lossy(bytes).into_owned()
}

/// Why a look-up failed.
#[derive(Clone, Copy, Debug, PartialEq, Eq, Structural)]
pub enum LookupError {
    /// The node refused the call.
    Refused,
    /// The answer could not be processed.
    Unprocessable,
}

/// What a look-up through the procedures found. The code -5 says that there is nothing.
pub fn found_by_rpc<T>(end: CallEnd<T>) -> (found: Result<Option<T>, LookupError>)
    ensures
        found == (match end {
            CallEnd::Reply(reply) => Ok::<Option<T>, LookupError>(Some(reply)),
            CallEnd::RpcError(code) => if code == -5 {
                Ok::<Option<T>, LookupError>(None)
            } else {
                Err::<Option<T>, LookupError>(LookupError::Refused)
            },
            _ => Err::<Option<T>, LookupError>(LookupError::Unprocessable),
        }),
{
    match end {
        CallEnd::Reply(reply) => Ok(Some(reply)),
        CallEnd::RpcError(code) => {
            if code == -5 {
                Ok(None)
            } else {
                Err(LookupError::Refused)
            }
        },
        _ => Err(LookupError::Unprocessable),
    }
}

/// What a look-up through the REST interface found. The HTTP status 404 says that there is nothing.
pub fn found_by_rest<T>(end: CallEnd<T>) -> (found: Result<Option<T>, LookupError>)
    ensures
        found == (match end {
            CallEnd::Reply(reply) => Ok::<Option<T>, LookupError>(Some(reply)),
            CallEnd::HttpError(error) => if error.status_code@ == "404"@ {
                Ok::<Option<T>, LookupError>(None)
            } else {
                Err::<Option<T>, LookupError>(LookupError::Refused)
            },
            _ => Err::<Option<T>, LookupError>(LookupError::Unprocessable),
        }),
{
    match end {
        CallEnd::Reply(reply) => Ok(Some(reply)),
        CallEnd::HttpError(error) => {
            if text_eq(error.status_code.as_str(), "404") {
                Ok(None)
            } else {
                Err(LookupError::Refused)
            }
        },
        _ => Err(LookupError::Unprocessable),
    }
}

/// The text of a list of bytes in base64, as the standard engine of the `base64` crate gives it.
pub uninterp spec fn base64_text(bytes: Seq<u8>) -> Seq<char>;

/// The text of a list of bytes in base64.
///
/// Calls `base64::Engine::encode` of `base64::prelude::BASE64_STANDARD`, which depends on the bytes
/// alone.
#[verifier::external_body]
fn encode_base64(bytes: &[u8]) -> (text: String)
    ensures
        text@ == base64_text(bytes@),
{
    base64::Engine::encode(&base64::prelude::BASE64_STANDARD, bytes)
}

/// The credentials that a call carries: user and password, with a colon between them, in base64.
pub fn rpc_credentials(rpc_user: &str, rpc_password: &str) -> (credentials: String)
    ensures
        credentials@ == base64_text(
            vstd::utf8::encode_utf8(rpc_user@ + ":"@ + rpc_password@),
        ),
{
    let mut text = rpc_user.to_owned();
    text.append(":");
    text.append(rpc_password);
    encode_base64(text.as_str().as_bytes())
}

/// Where a node is asked.
#[derive(Debug)]
pub struct Endpoint {
    pub host: String,
    pub port: u16,
    pub path: String,
}

/// Where the node's procedures are called.
pub fn endpoint(host: String, port: u16) -> (endpoint: Endpoint)
    ensures
        endpoint.host == host,
        endpoint.port == port,
        endpoint.path@ == "/"@,
{
    Endpoint { host, port, path: "/".to_owned() }
}

/// Where the node's REST interface is.
pub fn rest_endpoint(host: String, port: u16) -> (endpoint: Endpoint)
    ensures
        endpoint.host == host,
        endpoint.port == port,
        endpoint.path@ == "/rest"@,
{
    Endpoint { host, port, path: "/rest".to_owned() }
}

/// The value of a field is the last one that is given for its name, and a name that is not given has none. A
/// value that is no object has no fields.
pub proof fn law_the_last_value_of_a_field_counts(
    fields: Vec<(String, Json)>,
    name: Seq<char>,
    i: int,
    value: Json,
)
    ensures
        0 <= i < fields@.len() && fields@[i].0@ == name && (forall|j: int|
            i < j < fields@.len() ==> (#[trigger] fields@[j]).0@ != name) ==> Json::Object(
            fields,
        ).field(name) == Some(fields@[i].1),
        (forall|j: int| 0 <= j < fields@.len() ==> (#[trigger] fields@[j]).0@ != name)
            ==> Json::Object(fields).field(name) is None,
        !(value is Object) ==> value.field(name) is None,
        value.is_null_field(name) <==> value.field(name) is None || value.field(name) == Some(
            Json::Null,
        ),
{
    lemma_field_position(fields@, name, i);
}

proof fn lemma_field_position(fields: Seq<(String, Json)>, name: Seq<char>, i: int)
    ensures
        0 <= i < fields.len() && fields[i].0@ == name && (forall|j: int|
            i < j < fields.len() ==> (#[trigger] fields[j]).0@ != name) ==> Json::field_position(
            fields,
            name,
        ) == Some(i),
        (forall|j: int| 0 <= j < fields.len() ==> (#[trigger] fields[j]).0@ != name)
            ==> Json::field_position(fields, name) is None,
    decreases fields.len(),
{
    if fields.len() > 0 {
        let front = fields.drop_last();
        let last = fields.len() - 1;
        lemma_field_position(front, name, i);
        assert(fields[last] == fields.last());
        assert forall|j: int| 0 <= j < front.len() implies #[trigger] front[j] == fields[j] by {}
    }
}

/// A fee rate is that of the number which the field holds, and there is none where it holds anything else.
pub proof fn law_fee_rates_are_numbers(reply: Json, name: Seq<char>, number: JsonNumber)
    ensures
        reply.field(name) == Some(Json::Number(number)) ==> fee_rate_field(reply, name) == Some(
            number.as_fee_rate_sat_per_kwu,
        ),
        fee_rate_field(reply, name) is Some <==> reply.field(name) is Some && reply.field(
            name,
        )->0 is Number,
{
}

/// A reply is a transaction exactly if it is the hexadecimal text of the bytes of one, of four million bytes
/// at most, and it is the transaction of just those bytes.
pub proof fn law_transactions_are_hexadecimal_texts(reply: Json, bytes: Seq<u8>)
    ensures
        raw_transaction(reply) == Some(bytes) <==> reply is Text && crate::hex::hex_bytes(
            reply->Text_0@,
        ) == Some(bytes) && bytes.len() <= 4_000_000 && crate::transaction::txid_of(bytes) is Some,
{
}

/// A value shows an identifier exactly if it is the hexadecimal text of its 32 bytes, last byte first, and
/// never shows two.
pub proof fn law_identifiers_are_shown_last_byte_first(value: Json, a: Txid, b: Txid, values: Seq<Json>, i: int)
    ensures
        shows_txid(value, a) ==> shows_any_txid(value),
        shows_txid(value, a) && shows_txid(value, b) ==> a.0@ == b.0@,
        value is Text && value->Text_0@ == crate::hex::hex_text(a.0@.reverse()) ==> shows_txid(
            value,
            a,
        ),
        shows_any_txid(value) <==> value is Text && crate::hex::hex_bytes(value->Text_0@) is Some
            && crate::hex::hex_bytes(value->Text_0@)->0.len() == 32,
        show_txids(values) && 0 <= i < values.len() ==> shows_any_txid(values[i]),
        0 <= i < values.len() && !shows_any_txid(values[i]) ==> !show_txids(values),
{
    crate::hex::law_hex_round_trip(a.0@.reverse());
    assert(a.0@.reverse().reverse() =~= a.0@);
    assert(b.0@.reverse().reverse() =~= b.0@);
}

/// An entry of the mempool has the time and the height of the reply, which are whole numbers, and a reply
/// without them, or with a height that is too large, is none.
pub proof fn law_entries_have_a_time_and_a_height(reply: Json, time: JsonNumber, height: JsonNumber)
    ensures
        whole_number(Json::Number(time)) == time.whole,
        !(reply is Number) ==> whole_number(reply) is None,
        mempool_entry(reply) is Some ==> reply.field("time"@) is Some && reply.field("height"@)
            is Some,
        reply.field("time"@) == Some(Json::Number(time)) && reply.field("height"@) == Some(
            Json::Number(height),
        ) ==> {
            &&& mempool_entry(reply) is Some <==> time.whole is Some && height.whole is Some
                && height.whole->0 <= u32::MAX
            &&& mempool_entry(reply) matches Some(entry) ==> time.whole == Some(entry.time)
                && height.whole->0 == entry.height
        },
        reply.field("time"@) is Some && reply.field("height"@) is Some ==> has_entry_fields(reply),
        reply.field("time"@) is None ==> !has_entry_fields(reply),
        reply.field("time"@) == Some(Json::Number(time)) && time.whole is Some && reply.field(
            "height"@,
        ) is None ==> !has_entry_fields(reply),
{
}

/// What a request asks for: a call names its method and hands over just the text, or nothing, and a path is
/// asked for as it is.
pub proof fn law_requests_ask_for_what_they_name(
    call: RpcCall,
    path: String,
    method: Seq<char>,
    text: Seq<char>,
)
    ensures
        Request::Rpc(call).is_call_with_text(method, text) <==> call.method@ == method
            && call.params@.len() == 1 && call.params@[0] is Text && call.params@[0]->Text_0@
            == text,
        Request::Rpc(call).is_plain_call(method) <==> call.method@ == method && call.params@.len()
            == 0,
        Request::Rest(path).is_path(text) <==> path@ == text,
        !Request::Rest(path).is_call_with_text(method, text),
        !Request::Rest(path).is_plain_call(method),
        !Request::Rpc(call).is_path(text),
{
}

/// The modes of an estimate have the names that the node knows them by.
pub proof fn law_modes_have_their_names()
    ensures
        FeeRateEstimationMode::Economical.name()@ == "ECONOMICAL"@,
        FeeRateEstimationMode::Conservative.name()@ == "CONSERVATIVE"@,
{
}

/// What was not found is told from what failed: a node says so with code -5, a server with status 404.
pub proof fn law_what_is_not_found_is_no_error(
    reply: u64,
    code: i64,
    error: HttpError,
    found: Result<Option<u64>, LookupError>,
    coded: Result<Option<u64>, LookupError>,
    other: Result<Option<u64>, LookupError>,
    by_rest: Result<Option<u64>, LookupError>,
    answered: Result<Option<u64>, LookupError>,
    other_by_rest: Result<Option<u64>, LookupError>,
)
    requires
        call_ensures(found_by_rpc::<u64>, (CallEnd::Reply(reply),), found),
        call_ensures(found_by_rpc::<u64>, (CallEnd::<u64>::RpcError(code),), coded),
        call_ensures(found_by_rpc::<u64>, (CallEnd::<u64>::OtherError,), other),
        call_ensures(found_by_rest::<u64>, (CallEnd::Reply(reply),), by_rest),
        call_ensures(found_by_rest::<u64>, (CallEnd::<u64>::HttpError(error),), answered),
        call_ensures(found_by_rest::<u64>, (CallEnd::<u64>::OtherError,), other_by_rest),
    ensures
        found == Ok::<Option<u64>, LookupError>(Some(reply)),
        code == -5 ==> coded == Ok::<Option<u64>, LookupError>(None),
        code != -5 ==> coded == Err::<Option<u64>, LookupError>(LookupError::Refused),
        other == Err::<Option<u64>, LookupError>(LookupError::Unprocessable),
        by_rest == Ok::<Option<u64>, LookupError>(Some(reply)),
        error.status_code@ == "404"@ ==> answered == Ok::<Option<u64>, LookupError>(None),
        error.status_code@ != "404"@ ==> answered == Err::<Option<u64>, LookupError>(
            LookupError::Refused,
        ),
        other_by_rest == Err::<Option<u64>, LookupError>(LookupError::Unprocessable),
{
}

/// A fee rate is read from the field `feerate` unless errors are reported, and the least rate of the mempool
/// from the field `mempoolminfee`.
pub proof fn law_fee_rates_are_read_from_their_fields(
    reply: Json,
    estimate: Result<FeeResponse, ReplyError>,
    minimum: Result<MempoolMinFeeResponse, ReplyError>,
)
    requires
        call_ensures(FeeResponse::from_reply, (&reply,), estimate),
        call_ensures(MempoolMinFeeResponse::from_reply, (&reply,), minimum),
    ensures
        estimate is Ok <==> reply.is_null_field("errors"@) && reply.field("feerate"@) is Some
            && reply.field("feerate"@)->0 is Number,
        estimate matches Ok(rate) ==> Some(rate.0) == fee_rate_field(reply, "feerate"@),
        !reply.is_null_field("errors"@) ==> estimate == Err::<FeeResponse, ReplyError>(
            ReplyError::Reported,
        ),
        minimum is Ok <==> reply.field("mempoolminfee"@) is Some && reply.field(
            "mempoolminfee"@,
        )->0 is Number,
        minimum matches Ok(rate) ==> Some(rate.0) == fee_rate_field(reply, "mempoolminfee"@),
{
}

} // verus!
