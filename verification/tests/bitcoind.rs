use bitcoin::hashes::Hash as _;

use ldk_node::chain::bitcoind::{
    after_poll_step, chain_listeners, fee_rate_query, fee_rate_reply_meaning, first_poll_step,
    note_best_tip, note_wallets_synced, poll_chain_tip, process_broadcast_package,
    update_fee_rate_estimates, BestTipPoll, BitcoindClient, FeeRateQuery, FeeRateReply, Listener,
    PackageBroadcast, PollStep, ReplyMeaning, SyncAttempt, SyncLoop, SyncLoopAction,
    SyncLoopEvent, TipPoll,
};
use ldk_node::chain::bitcoind_rpc::{read_raw_mempool, BitcoindRpcClient};
use ldk_node::chain::fees::{ConfirmationTarget, LdkConfirmationTarget};
use ldk_node::chain::headers::BoundedHeaderCache;
use ldk_node::chain::json::{
    broadcast_transaction, endpoint, found_by_rest, found_by_rpc, get_fee_estimate_for_target,
    get_mempool_entry, get_mempool_minimum_fee_rate, get_raw_mempool, get_raw_transaction,
    rest_endpoint, rpc_credentials, submit_package, CallEnd, ClientKind, FeeRateEstimationMode,
    FeeResponse, GetMempoolEntryResponse, GetRawMempoolResponse, GetRawTransactionResponse,
    HttpError, Json, JsonNumber, LookupError, MempoolMinFeeResponse, ReplyError, Request,
};
use ldk_node::chain::mempool::{EmissionStep, MempoolCache, MempoolEntry};
use ldk_node::error::Error;
use ldk_node::metrics::NodeMetrics;
use ldk_node::transaction::Transaction;
use ldk_node::types::{BestBlock, BlockHash, Network, Txid};

fn whole(n: u64) -> Json {
    Json::Number(JsonNumber { whole: Some(n), as_fee_rate_sat_per_kwu: n * 25_000_000 })
}

fn btc_per_kvb(rate: f64) -> Json {
    Json::Number(JsonNumber {
        whole: None,
        as_fee_rate_sat_per_kwu: (rate * 25_000_000.0).round() as u64,
    })
}

fn object(fields: Vec<(&str, Json)>) -> Json {
    Json::Object(fields.into_iter().map(|(name, value)| (name.to_string(), value)).collect())
}

fn bitcoin_tx(value: u64) -> bitcoin::Transaction {
    bitcoin::Transaction {
        version: bitcoin::transaction::Version::TWO,
        lock_time: bitcoin::absolute::LockTime::ZERO,
        input: vec![bitcoin::TxIn {
            previous_output: bitcoin::OutPoint {
                txid: bitcoin::Txid::from_byte_array([7u8; 32]),
                vout: 1,
            },
            script_sig: bitcoin::ScriptBuf::new(),
            sequence: bitcoin::Sequence::MAX,
            witness: bitcoin::Witness::from_slice(&[[1u8, 2, 3]]),
        }],
        output: vec![bitcoin::TxOut {
            value: bitcoin::Amount::from_sat(value),
            script_pubkey: bitcoin::ScriptBuf::from_bytes(vec![0x51]),
        }],
    }
}

fn transaction(value: u64) -> Transaction {
    Transaction::from_bytes(bitcoin::consensus::serialize(&bitcoin_tx(value))).unwrap()
}

fn text_of(json: &Json) -> String {
    match json {
        Json::Text(text) => text.clone(),
        _ => panic!("no text: {:?}", json),
    }
}

fn rpc_call(request: Request) -> (String, Vec<Json>) {
    match request {
        Request::Rpc(call) => (call.method, call.params),
        Request::Rest(path) => panic!("a path: {}", path),
    }
}

fn rest_path(request: Request) -> String {
    match request {
        Request::Rest(path) => path,
        Request::Rpc(call) => panic!("a call: {}", call.method),
    }
}

#[test]
fn prop_get_raw_mempool_response_roundtrip() {
    let mut ascending = [0u8; 32];
    for (i, byte) in ascending.iter_mut().enumerate() {
        *byte = i as u8;
    }
    let txids = vec![Txid([0u8; 32]), Txid(ascending), Txid([0xff; 32])];
    let shown: Vec<Json> = txids
        .iter()
        .map(|t| Json::Text(bitcoin::Txid::from_byte_array(t.0).to_string()))
        .collect();
    let decoded = GetRawMempoolResponse::from_reply(&Json::Array(shown)).unwrap();
    assert_eq!(decoded.0, txids);

    let none = GetRawMempoolResponse::from_reply(&Json::Array(Vec::new())).unwrap();
    assert!(none.0.is_empty());
}

#[test]
fn a_single_bad_txid_spoils_the_mempool_reply() {
    let good = Json::Text("00".repeat(32));
    let reply = Json::Array(vec![good, Json::Text("00".repeat(31))]);
    assert_eq!(GetRawMempoolResponse::from_reply(&reply).unwrap_err(), ReplyError::Malformed);
    assert_eq!(GetRawMempoolResponse::from_reply(&Json::Null).unwrap_err(), ReplyError::Malformed);
    let numbers = Json::Array(vec![whole(3)]);
    assert_eq!(GetRawMempoolResponse::from_reply(&numbers).unwrap_err(), ReplyError::Malformed);
}

#[test]
fn prop_get_mempool_entry_response_roundtrip() {
    for (time, height) in [(0u64, 0u32), (1_700_000_000, 840_000), (9, u32::MAX)] {
        let reply = object(vec![("time", whole(time)), ("height", whole(height as u64))]);
        let decoded = GetMempoolEntryResponse::from_reply(&reply);
        assert_eq!(decoded, Ok(GetMempoolEntryResponse { time, height }));
    }
    let latest = Json::Number(JsonNumber { whole: Some(u64::MAX), as_fee_rate_sat_per_kwu: 0 });
    let reply = object(vec![("time", latest), ("height", whole(1))]);
    assert_eq!(GetMempoolEntryResponse::from_reply(&reply).unwrap().time, u64::MAX);
}

#[test]
fn malformed_mempool_entries_are_refused() {
    let too_high = object(vec![("time", whole(1)), ("height", whole(1 << 32))]);
    assert_eq!(GetMempoolEntryResponse::from_reply(&too_high), Err(ReplyError::Malformed));
    let text = object(vec![("time", Json::Text("1".to_string())), ("height", whole(1))]);
    assert_eq!(GetMempoolEntryResponse::from_reply(&text), Err(ReplyError::Malformed));
    // A malformed time is refused before the height is looked up.
    let no_height = object(vec![("time", Json::Null)]);
    assert_eq!(GetMempoolEntryResponse::from_reply(&no_height), Err(ReplyError::Malformed));
    assert_eq!(GetMempoolEntryResponse::from_reply(&Json::Null), Err(ReplyError::Malformed));
}

#[test]
fn prop_get_raw_transaction_response_roundtrip() {
    for value in [0, 1, 21_000_000 * 100_000_000] {
        let tx = bitcoin_tx(value);
        let hex = bitcoin::consensus::encode::serialize_hex(&tx);
        let decoded = GetRawTransactionResponse::from_reply(&Json::Text(hex.clone())).unwrap().0;
        assert_eq!(decoded.compute_txid().0, tx.compute_txid().to_byte_array());
        assert_eq!(decoded.as_bytes(), &bitcoin::consensus::serialize(&tx));
        assert_eq!(decoded.to_hex(), hex);
    }
}

#[test]
fn what_is_no_transaction_is_refused() {
    for reply in [Json::Null, Json::Text("".to_string()), Json::Text("xy".to_string())] {
        let refused = GetRawTransactionResponse::from_reply(&reply);
        assert_eq!(refused.unwrap_err(), ReplyError::Malformed);
    }
    let mut hex = bitcoin::consensus::encode::serialize_hex(&bitcoin_tx(1));
    hex.push_str("00");
    assert!(GetRawTransactionResponse::from_reply(&Json::Text(hex)).is_err());
    assert!(Transaction::from_bytes(vec![1, 2, 3]).is_none());
}

#[test]
fn prop_fee_response_roundtrip() {
    for rate in [0.0, 0.00001, 0.00012345, 1.5, 1e30] {
        let reply = object(vec![("feerate", btc_per_kvb(rate)), ("errors", Json::Null)]);
        let expected = (rate * 25_000_000.0).round() as u64;
        assert_eq!(FeeResponse::from_reply(&reply), Ok(FeeResponse(expected)));
        let without_errors = object(vec![("feerate", btc_per_kvb(rate))]);
        assert_eq!(FeeResponse::from_reply(&without_errors), Ok(FeeResponse(expected)));
    }
    let reply = object(vec![("feerate", btc_per_kvb(0.00001))]);
    assert_eq!(FeeResponse::from_reply(&reply), Ok(FeeResponse(250)));
}

#[test]
fn reported_errors_come_before_the_fee_rate() {
    let errors = Json::Array(vec![Json::Text("Insufficient data".to_string())]);
    let reply = object(vec![("feerate", btc_per_kvb(0.1)), ("errors", errors)]);
    assert_eq!(FeeResponse::from_reply(&reply), Err(ReplyError::Reported));
    assert_eq!(FeeResponse::from_reply(&object(vec![])), Err(ReplyError::Malformed));
}

#[test]
fn prop_mempool_min_fee_response_roundtrip() {
    for rate in [0.0, 0.00001, 0.00012345, 1.5] {
        let reply = object(vec![("mempoolminfee", btc_per_kvb(rate))]);
        let expected = (rate * 25_000_000.0).round() as u64;
        assert_eq!(
            MempoolMinFeeResponse::from_reply(&reply),
            Ok(MempoolMinFeeResponse(expected))
        );
    }
    let other = object(vec![("minfee", btc_per_kvb(1.0))]);
    assert_eq!(MempoolMinFeeResponse::from_reply(&other), Err(ReplyError::Malformed));
}

#[test]
fn the_last_field_of_a_name_counts() {
    let reply = object(vec![("a", whole(1)), ("b", whole(2)), ("a", whole(3))]);
    assert!(matches!(reply.get("a"), Some(Json::Number(n)) if n.whole == Some(3)));
    assert!(reply.get("c").is_none());
    assert!(Json::Null.get("a").is_none());
}

#[test]
fn requests_of_both_interfaces() {
    let tx = transaction(5);
    let txid = tx.compute_txid();
    let shown = bitcoin_tx(5).compute_txid().to_string();

    let (method, params) = rpc_call(get_raw_transaction(ClientKind::Rpc, &txid));
    assert_eq!((method.as_str(), text_of(&params[0])), ("getrawtransaction", shown.clone()));
    let path = rest_path(get_raw_transaction(ClientKind::Rest, &txid));
    assert_eq!(path, format!("tx/{}.json", shown));

    let (method, params) = rpc_call(get_mempool_entry(&txid));
    assert_eq!((method.as_str(), text_of(&params[0])), ("getmempoolentry", shown));

    let (method, params) = rpc_call(get_raw_mempool(ClientKind::Rpc));
    assert_eq!(method, "getrawmempool");
    assert!(matches!(params[..], [Json::Bool(false)]));
    let path = rest_path(get_raw_mempool(ClientKind::Rest));
    assert_eq!(path, "mempool/contents.json?verbose=false");

    let (method, params) = rpc_call(get_mempool_minimum_fee_rate(ClientKind::Rpc));
    assert_eq!((method.as_str(), params.len()), ("getmempoolinfo", 0));
    let path = rest_path(get_mempool_minimum_fee_rate(ClientKind::Rest));
    assert_eq!(path, "mempool/info.json");

    let hex = bitcoin::consensus::encode::serialize_hex(&bitcoin_tx(5));
    let (method, params) = rpc_call(broadcast_transaction(&tx));
    assert_eq!((method.as_str(), text_of(&params[0])), ("sendrawtransaction", hex.clone()));

    let (method, params) = rpc_call(submit_package(&vec![transaction(5), transaction(6)]));
    assert_eq!(method, "submitpackage");
    match &params[0] {
        Json::Array(texts) => {
            assert_eq!(text_of(&texts[0]), hex);
            let second = bitcoin::consensus::encode::serialize_hex(&bitcoin_tx(6));
            assert_eq!(text_of(&texts[1]), second);
            assert_eq!(texts.len(), 2);
        }
        other => panic!("no list: {:?}", other),
    }

    let blocks = JsonNumber { whole: Some(6), as_fee_rate_sat_per_kwu: 0 };
    let mode = FeeRateEstimationMode::Conservative;
    let (method, params) = rpc_call(get_fee_estimate_for_target(blocks, mode));
    assert_eq!((method.as_str(), text_of(&params[1])), ("estimatesmartfee", "CONSERVATIVE".into()));
    assert!(matches!(&params[0], Json::Number(n) if *n == blocks));
    let mode = FeeRateEstimationMode::Economical;
    let (_, params) = rpc_call(get_fee_estimate_for_target(blocks, mode));
    assert_eq!(text_of(&params[1]), "ECONOMICAL");
}

#[test]
fn look_ups_that_find_nothing() {
    assert_eq!(found_by_rpc(CallEnd::Reply(3u8)), Ok(Some(3)));
    assert_eq!(found_by_rpc(CallEnd::<u8>::RpcError(-5)), Ok(None));
    assert_eq!(found_by_rpc(CallEnd::<u8>::RpcError(-8)), Err(LookupError::Refused));
    assert_eq!(found_by_rpc(CallEnd::<u8>::OtherError), Err(LookupError::Unprocessable));

    let http = |status: &str| {
        CallEnd::<u8>::HttpError(HttpError { status_code: status.to_string(), contents: vec![] })
    };
    assert_eq!(found_by_rest(CallEnd::Reply(3u8)), Ok(Some(3)));
    assert_eq!(found_by_rest(http("404")), Ok(None));
    assert_eq!(found_by_rest(http("500")), Err(LookupError::Refused));
    assert_eq!(found_by_rest(CallEnd::<u8>::RpcError(-5)), Err(LookupError::Unprocessable));
}

#[test]
fn http_errors_show_their_contents() {
    let error = HttpError { status_code: "503".to_string(), contents: b"try \xffagain".to_vec() };
    assert_eq!(error.message(), "status_code: 503, contents: try \u{fffd}again");

    let read = HttpError::from_message(&error.message()).unwrap();
    assert_eq!(read.status_code, "503");
    assert_eq!(read.contents, "try \u{fffd}again".as_bytes());
    let read = HttpError::from_message("status_code: 404, contents: , contents: ").unwrap();
    assert_eq!((read.status_code.as_str(), read.contents.as_slice()), ("404", &b", contents: "[..]));
    assert!(HttpError::from_message("status_code: , contents: ").is_some());
    for other in ["", "status_code: 404", "status_code: 404, content: ", "code: 404, contents: "] {
        assert!(HttpError::from_message(other).is_none());
    }
}

#[test]
fn clients_carry_credentials_in_base64() {
    assert_eq!(rpc_credentials("Aladdin", "open sesame"), "QWxhZGRpbjpvcGVuIHNlc2FtZQ==");
    let client = BitcoindClient::new_rest(
        "rest.host".to_string(),
        18332,
        "rpc.host".to_string(),
        8332,
        "Aladdin",
        "open sesame",
    );
    assert_eq!(client.kind, ClientKind::Rest);
    assert_eq!(client.rpc_credentials, "QWxhZGRpbjpvcGVuIHNlc2FtZQ==");
    let rest = client.rest_endpoint.unwrap();
    assert_eq!((rest.host.as_str(), rest.port, rest.path.as_str()), ("rest.host", 18332, "/rest"));
    let rpc = client.rpc_endpoint;
    assert_eq!((rpc.host.as_str(), rpc.port, rpc.path.as_str()), ("rpc.host", 8332, "/"));

    let client = BitcoindClient::new_rpc("h".to_string(), 1, "u", "p");
    assert_eq!(client.kind, ClientKind::Rpc);
    assert!(client.rest_endpoint.is_none());
    assert_eq!(endpoint("h".to_string(), 1).path, "/");
    assert_eq!(rest_endpoint("h".to_string(), 1).path, "/rest");
}

#[test]
fn the_plain_client_keeps_the_order_of_bytes() {
    let mut bytes = [0u8; 32];
    bytes[0] = 0xab;
    let text = format!("ab{}", "00".repeat(31));
    let txids = read_raw_mempool(&Json::Array(vec![Json::Text(text.clone())])).unwrap();
    assert_eq!(txids, vec![Txid(bytes)]);
    let (method, params) = rpc_call(BitcoindRpcClient::get_raw_transaction(&Txid(bytes)));
    assert_eq!((method.as_str(), text_of(&params[0])), ("getrawtransaction", text.clone()));
    let (method, params) = rpc_call(BitcoindRpcClient::get_mempool_entry(&Txid(bytes)));
    assert_eq!((method.as_str(), text_of(&params[0])), ("getmempoolentry", text));
    assert_eq!(read_raw_mempool(&Json::Null).unwrap_err(), ReplyError::Malformed);
    let short = Json::Array(vec![Json::Text("ab".to_string())]);
    assert_eq!(read_raw_mempool(&short).unwrap_err(), ReplyError::Malformed);
}

fn entry(id: u8, time: u64, height: u32) -> MempoolEntry {
    MempoolEntry { txid: Txid([id; 32]), time, height }
}

#[test]
fn the_plain_client_emits_nothing_twice() {
    let mut client = BitcoindRpcClient::new("h".to_string(), 1, "u", "p");
    let entries = vec![entry(1, 10, 100), entry(2, 20, 101)];
    let to_fetch = client.entries_to_fetch(&entries, 101);
    assert_eq!(to_fetch.len(), 2);
    let emitted = client.emit(&entries, &to_fetch, vec![Some(transaction(1)), None]);
    assert_eq!(emitted.len(), 1);
    assert_eq!(emitted[0].1, 10);
    assert_eq!(client.latest_mempool_timestamp, 20);

    assert!(client.entries_to_fetch(&entries, 101).is_empty());
    // A block with an ancestor is yet to come, so this one has to be emitted again.
    let again = client.entries_to_fetch(&entries, 100);
    assert_eq!(again.len(), 1);
    assert_eq!(again[0].txid, Txid([2; 32]));
    let emitted = client.emit(&entries, &again, vec![None]);
    assert!(emitted.is_empty());
    assert_eq!(client.latest_mempool_timestamp, 20);
}

fn run_emission(cache: &mut MempoolCache, height: u32, fetchable: bool) -> (usize, Vec<u64>) {
    let mut fetches: usize = 0;
    let mut emission = cache.begin_emission(height);
    while let EmissionStep::Fetch(txid) = cache.emission_step(&mut emission) {
        fetches += 1;
        let tx = if fetchable { Some(transaction(txid.0[0] as u64)) } else { None };
        cache.note_fetched(&mut emission, tx);
    }
    let emitted = cache.finish_emission(emission);
    (fetches, emitted.iter().map(|(_, time)| *time).collect())
}

#[test]
fn the_mempool_is_followed() {
    let mut cache = MempoolCache::new();
    let txids = vec![Txid([1; 32]), Txid([2; 32])];
    cache.begin_update(&txids);
    assert_eq!(cache.next_entry_to_fetch(&txids, 0), Some(0));
    cache.note_entry(txids[0], Some(entry(1, 10, 100)));
    assert_eq!(cache.next_entry_to_fetch(&txids, 0), Some(1));
    cache.note_entry(txids[1], Some(entry(2, 20, 100)));
    assert_eq!(cache.next_entry_to_fetch(&txids, 0), None);

    assert_eq!(run_emission(&mut cache, 100, true), (2, vec![10, 20]));
    assert_eq!(cache.latest_mempool_timestamp, 20);
    // Nothing is emitted twice, unless a block with an ancestor is yet to come.
    assert_eq!(run_emission(&mut cache, 100, true), (0, vec![]));
    // What was fetched before is not fetched again.
    assert_eq!(run_emission(&mut cache, 99, false), (0, vec![10, 20]));

    let left = vec![Txid([2; 32])];
    cache.begin_update(&left);
    let wallet = vec![Txid([1; 32]), Txid([2; 32]), Txid([3; 32])];
    assert_eq!(
        cache.get_evicted_mempool_txids_and_timestamp(&wallet),
        vec![(Txid([1; 32]), 20), (Txid([3; 32]), 20)]
    );
}

#[test]
fn transactions_that_leave_the_mempool_meanwhile_are_skipped() {
    let mut cache = MempoolCache::new();
    let txids = vec![Txid([1; 32]), Txid([2; 32])];
    cache.note_entry(txids[0], None);
    cache.note_entry(txids[1], Some(entry(2, 20, 100)));
    assert_eq!(cache.next_entry_to_fetch(&txids, 1), None);
    assert_eq!(run_emission(&mut cache, 100, false), (1, vec![]));
    assert_eq!(cache.latest_mempool_timestamp, 0);
}

fn shown(step: PollStep) -> String {
    format!("{:?}", step)
}

fn block(id: u8, height: u32) -> BestBlock {
    BestBlock { block_hash: BlockHash([id; 32]), height }
}

#[test]
fn all_monitors_are_synced_from_the_lowest_block() {
    let hash = |id: u8| BlockHash([id; 32]);
    let monitors = vec![block(7, 70), block(5, 50), block(6, 50)];
    let listeners = chain_listeners(hash(1), hash(2), hash(3), &monitors);
    assert_eq!(listeners.len(), 4);
    assert!(listeners[0] == (hash(1), Listener::OnchainWallet));
    assert!(listeners[1] == (hash(2), Listener::ChannelManager));
    assert!(listeners[2] == (hash(3), Listener::OutputSweeper));
    assert!(listeners[3] == (hash(5), Listener::ChainMonitor));
    assert_eq!(chain_listeners(hash(1), hash(2), hash(3), &Vec::new()).len(), 3);
}

#[test]
fn pauses_double_up_to_the_longest() {
    let (mut state, action) = SyncLoop::new();
    assert_eq!(action, SyncLoopAction::SyncListeners);
    let mut pauses = Vec::new();
    for _ in 0..10 {
        match state.step(SyncLoopEvent::Attempted(SyncAttempt::TransientError)) {
            SyncLoopAction::Pause(secs) => pauses.push(secs),
            action => panic!("unexpected action {:?}", action),
        }
        assert_eq!(state.step(SyncLoopEvent::Paused), SyncLoopAction::SyncListeners);
    }
    assert_eq!(pauses, vec![2, 4, 8, 16, 32, 64, 128, 256, 300, 300]);

    let (mut state, _) = SyncLoop::new();
    assert_eq!(
        state.step(SyncLoopEvent::Attempted(SyncAttempt::PersistentError)),
        SyncLoopAction::Pause(300)
    );
    assert_eq!(
        state.step(SyncLoopEvent::Attempted(SyncAttempt::TransientError)),
        SyncLoopAction::Pause(2)
    );
}

#[test]
fn polling_begins_when_the_listeners_are_synced() {
    let (mut state, _) = SyncLoop::new();
    assert_eq!(state.step(SyncLoopEvent::PollTick), SyncLoopAction::Wait);
    let synced = SyncLoopEvent::Attempted(SyncAttempt::Synced);
    assert_eq!(state.step(synced), SyncLoopAction::StartPolling);
    assert_eq!(state.step(SyncLoopEvent::PollTick), SyncLoopAction::PollListeners);
    assert_eq!(state.step(synced), SyncLoopAction::Wait);
}

#[test]
fn a_stop_ends_the_loop() {
    let (mut state, _) = SyncLoop::new();
    assert_eq!(state.step(SyncLoopEvent::Stop), SyncLoopAction::Return);
    let synced = SyncLoopEvent::Attempted(SyncAttempt::Synced);
    assert_eq!(state.step(synced), SyncLoopAction::Return);

    let (mut state, _) = SyncLoop::new();
    state.step(synced);
    assert_eq!(state.step(SyncLoopEvent::Stop), SyncLoopAction::Return);
    assert_eq!(state.step(SyncLoopEvent::PollTick), SyncLoopAction::Return);
}

#[test]
fn fee_rates_are_updated_once_for_each_block() {
    let (mut state, _) = SyncLoop::new();
    state.step(SyncLoopEvent::Attempted(SyncAttempt::Synced));
    let best_block_hash = BlockHash([1; 32]);
    let tick = SyncLoopEvent::FeeRateTick { best_block_hash };
    assert_eq!(state.step(tick), SyncLoopAction::UpdateFeeRates);
    let failed = SyncLoopEvent::FeeRatesUpdated { succeeded: false, best_block_hash };
    assert_eq!(state.step(failed), SyncLoopAction::Wait);
    assert_eq!(state.step(tick), SyncLoopAction::UpdateFeeRates);
    let updated = SyncLoopEvent::FeeRatesUpdated { succeeded: true, best_block_hash };
    assert_eq!(state.step(updated), SyncLoopAction::Wait);
    assert_eq!(state.step(tick), SyncLoopAction::Wait);
    let next = SyncLoopEvent::FeeRateTick { best_block_hash: BlockHash([2; 32]) };
    assert_eq!(state.step(next), SyncLoopAction::UpdateFeeRates);
}

#[test]
fn a_poll_goes_through_its_steps() {
    let mut tip: Option<u32> = None;
    assert_eq!(shown(first_poll_step(&tip)), shown(PollStep::FetchTip));
    assert_eq!(poll_chain_tip(&mut tip, TipPoll::TimedOut), Err(Error::TxSyncTimeout));
    assert_eq!(poll_chain_tip(&mut tip, TipPoll::Failed), Err(Error::TxSyncFailed));
    assert_eq!(tip, None);
    assert_eq!(poll_chain_tip(&mut tip, TipPoll::Tip(5)), Ok(5));
    assert_eq!(tip, Some(5));
    assert_eq!(shown(first_poll_step(&tip)), shown(PollStep::FollowTip));

    let better = BestTipPoll::Better { tip: 6, blocks_connected: false };
    assert_eq!(note_best_tip(&mut tip, better), Ok(()));
    assert_eq!(tip, Some(5));
    let better = BestTipPoll::Better { tip: 6, blocks_connected: true };
    assert_eq!(note_best_tip(&mut tip, better), Ok(()));
    assert_eq!(tip, Some(6));
    assert_eq!(note_best_tip(&mut tip, BestTipPoll::NotBetter), Ok(()));
    assert_eq!(note_best_tip(&mut tip, BestTipPoll::Failed), Err(Error::TxSyncFailed));

    let timeout = Err(Error::TxSyncTimeout);
    let failed = PollStep::Return(Err(Error::TxSyncFailed));
    assert_eq!(shown(after_poll_step(PollStep::FetchTip, Ok(()))), shown(PollStep::FollowTip));
    assert_eq!(shown(after_poll_step(PollStep::FetchTip, timeout)), shown(PollStep::Return(timeout)));
    assert_eq!(shown(after_poll_step(PollStep::FollowTip, Ok(()))), shown(PollStep::FetchMempool));
    assert_eq!(shown(after_poll_step(PollStep::FollowTip, timeout)), shown(failed));
    assert_eq!(shown(after_poll_step(PollStep::FetchMempool, Ok(()))), shown(PollStep::ApplyMempool));
    assert_eq!(shown(after_poll_step(PollStep::FetchMempool, timeout)), shown(failed));
    assert_eq!(shown(after_poll_step(PollStep::ApplyMempool, timeout)), shown(PollStep::WriteMetrics));
    assert_eq!(shown(after_poll_step(PollStep::WriteMetrics, Ok(()))), shown(PollStep::Return(Ok(()))));

    let mut metrics = NodeMetrics::new();
    note_wallets_synced(&mut metrics, Some(9));
    assert_eq!(metrics.latest_lightning_wallet_sync_timestamp, Some(9));
    assert_eq!(metrics.latest_onchain_wallet_sync_timestamp, Some(9));
}

#[test]
fn missing_fee_rates_are_fatal_on_the_main_network_only() {
    let failed = FeeRateReply::Failed;
    assert_eq!(
        fee_rate_reply_meaning(Network::Bitcoin, failed),
        ReplyMeaning::Fail(Error::FeerateEstimationUpdateFailed)
    );
    assert_eq!(fee_rate_reply_meaning(Network::Regtest, failed), ReplyMeaning::Use(250));
    assert_eq!(fee_rate_reply_meaning(Network::Signet, failed), ReplyMeaning::Use(250));
    assert_eq!(fee_rate_reply_meaning(Network::Testnet, failed), ReplyMeaning::Skip);
    assert_eq!(fee_rate_reply_meaning(Network::Testnet4, failed), ReplyMeaning::Skip);
    assert_eq!(
        fee_rate_reply_meaning(Network::Testnet, FeeRateReply::TimedOut),
        ReplyMeaning::Fail(Error::FeerateEstimationUpdateTimeout)
    );

    let minimum = LdkConfirmationTarget::MinAllowedAnchorChannelRemoteFee;
    let urgent = LdkConfirmationTarget::UrgentOnChainSweep;
    let targets = vec![
        ConfirmationTarget::OnchainPayment,
        ConfirmationTarget::Lightning(minimum),
        ConfirmationTarget::Lightning(urgent),
    ];
    assert_eq!(
        fee_rate_query(targets[0]),
        FeeRateQuery::Estimate(FeeRateEstimationMode::Economical)
    );
    assert_eq!(fee_rate_query(targets[1]), FeeRateQuery::MempoolMinimum);
    assert_eq!(
        fee_rate_query(targets[2]),
        FeeRateQuery::Estimate(FeeRateEstimationMode::Conservative)
    );

    let adjust = |_target: ConfirmationTarget, rate: u64| rate + 1;
    let replies = vec![FeeRateReply::Rate(500), failed, FeeRateReply::Rate(700)];
    let cache = update_fee_rate_estimates(Network::Regtest, &targets, &replies, &adjust);
    let cache = cache.ok().unwrap().unwrap();
    assert_eq!(cache.len(), 3);
    assert_eq!(cache.get(&targets[0]), Some(&501));
    assert_eq!(cache.get(&targets[1]), Some(&251));
    assert_eq!(cache.get(&targets[2]), Some(&701));
    let skipped = update_fee_rate_estimates(Network::Testnet, &targets, &replies, &adjust);
    assert!(matches!(skipped, Ok(None)));
    let refused = update_fee_rate_estimates(Network::Bitcoin, &targets, &replies, &adjust);
    assert!(matches!(refused, Err(Error::FeerateEstimationUpdateFailed)));
}

#[test]
fn packages_are_broadcast_together() {
    assert_eq!(process_broadcast_package(&vec![]), PackageBroadcast::Nothing);
    assert_eq!(process_broadcast_package(&vec![transaction(1)]), PackageBroadcast::Single);
    assert_eq!(
        process_broadcast_package(&vec![transaction(1), transaction(2)]),
        PackageBroadcast::Package
    );
}

#[test]
fn the_header_cache_drops_the_oldest() {
    let hash = |id: u8| BlockHash([id; 32]);
    let mut cache: BoundedHeaderCache<u8> = BoundedHeaderCache::new();
    for id in 0..99u8 {
        cache.block_connected(hash(id), id);
    }
    assert_eq!(cache.look_up(&hash(0)), Some(&0));
    cache.block_connected(hash(99), 99);
    assert_eq!(cache.look_up(&hash(0)), None);
    assert_eq!(cache.look_up(&hash(1)), Some(&1));
    assert_eq!(cache.look_up(&hash(99)), Some(&99));

    assert_eq!(cache.block_disconnected(&hash(50)), Some(50));
    assert_eq!(cache.look_up(&hash(50)), None);
    assert_eq!(cache.block_disconnected(&hash(50)), None);
    cache.block_connected(hash(50), 51);
    assert_eq!(cache.look_up(&hash(50)), Some(&51));
    // It is the newest one again: the others go first.
    for id in 100..199u8 {
        cache.block_connected(hash(id), id);
        assert_eq!(cache.look_up(&hash(49)).is_some(), id < 148);
        assert_eq!(cache.look_up(&hash(50)).is_some(), id < 198);
    }
}

#[test]
fn transaction_identifiers_are_shown_backwards() {
    let mut bytes = [0u8; 32];
    bytes[31] = 0xab;
    let text = format!("ab{}", "00".repeat(31));
    assert_eq!(Txid(bytes).to_text(), text);
    assert_eq!(Txid::parse(&text), Some(Txid(bytes)));
    assert_eq!(Txid::parse(&text.to_uppercase()), Some(Txid(bytes)));
    assert_eq!(Txid::parse("ab"), None);
    assert_eq!(Txid::parse(&"zz".repeat(32)), None);
}
