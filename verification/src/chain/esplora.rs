//! Syncing with an Esplora server.
use crate::chain::fees::{fee_rate_cache, rates_for, ConfirmationTarget, FeeRateCache};
use crate::chain::status::TaskEnd;
use crate::config::{BDK_CLIENT_CONCURRENCY, BDK_CLIENT_STOP_GAP, BDK_WALLET_SYNC_TIMEOUT_SECS};
use crate::error::Error;
use crate::metrics::NodeMetrics;
use crate::types::Network;
use vstd::prelude::*;

verus! {

/// The request that a sync of the on-chain wallet makes.
#[derive(Clone, Copy, Debug, PartialEq, Eq, Structural)]
pub struct EsploraRequest {
    /// Whether all scripts are scanned, with this gap, or only what is known is brought up to date.
    pub full_scan_stop_gap: Option<usize>,
    pub parallel_requests: usize,
    pub timeout_secs: u64,
}

/// The request that a sync of the on-chain wallet makes: a scan of all scripts the first time.
pub fn onchain_wallet_request(metrics: &NodeMetrics) -> (request: EsploraRequest)
    ensures
        request == (EsploraRequest {
            full_scan_stop_gap: if metrics.latest_onchain_wallet_sync_timestamp is Some {
                None
            } else {
                Some(BDK_CLIENT_STOP_GAP)
            },
            parallel_requests: BDK_CLIENT_CONCURRENCY,
            timeout_secs: BDK_WALLET_SYNC_TIMEOUT_SECS,
        }),
{
    let full_scan_stop_gap = if metrics.latest_onchain_wallet_sync_timestamp.is_some() {
        None
    } else {
        Some(BDK_CLIENT_STOP_GAP)
    };
    EsploraRequest {
        full_scan_stop_gap,
        parallel_requests: BDK_CLIENT_CONCURRENCY,
        timeout_secs: BDK_WALLET_SYNC_TIMEOUT_SECS,
    }
}

/// Ends a sync of the on-chain wallet. What was fetched was applied to the wallet, which can fail; the
/// time of a sync that succeeded is noted, and what the node remembers has to be written down.
pub fn finish_onchain_sync(
    applied: TaskEnd<Result<(), Error>>,
    now: Option<u64>,
    metrics: &mut NodeMetrics,
) -> (result: Result<(), Error>)
    ensures
        result == (match applied {
            TaskEnd::TimedOut => Err::<(), Error>(Error::WalletOperationTimeout),
            TaskEnd::NotJoined => Err::<(), Error>(Error::WalletOperationFailed),
            TaskEnd::Failed => Err::<(), Error>(Error::WalletOperationFailed),
            TaskEnd::Finished(applied) => applied,
        }),
        *final(metrics) == (NodeMetrics {
            latest_onchain_wallet_sync_timestamp: if result is Ok {
                now
            } else {
                old(metrics).latest_onchain_wallet_sync_timestamp
            },
            ..*old(metrics)
        }),
{
    let result = match applied {
        TaskEnd::TimedOut => Err(Error::WalletOperationTimeout),
        TaskEnd::NotJoined => Err(Error::WalletOperationFailed),
        TaskEnd::Failed => Err(Error::WalletOperationFailed),
        TaskEnd::Finished(applied) => applied,
    };
    if result.is_ok() {
        metrics.latest_onchain_wallet_sync_timestamp = now;
    }
    result
}

/// The result of a sync of the Lightning wallet. Its own errors pass through.
pub fn lightning_sync_result(ended: TaskEnd<Result<(), Error>>) -> (result: Result<(), Error>)
    ensures
        result == (match ended {
            TaskEnd::TimedOut => Err::<(), Error>(Error::TxSyncTimeout),
            TaskEnd::NotJoined => Err::<(), Error>(Error::TxSyncFailed),
            TaskEnd::Failed => Err::<(), Error>(Error::TxSyncFailed),
            TaskEnd::Finished(result) => result,
        }),
{
    match ended {
        TaskEnd::TimedOut => Err(Error::TxSyncTimeout),
        TaskEnd::NotJoined => Err(Error::TxSyncFailed),
        TaskEnd::Failed => Err(Error::TxSyncFailed),
        TaskEnd::Finished(result) => result,
    }
}

/// What the server gave when asked for fee estimates.
#[derive(Clone, Copy, Debug, PartialEq, Eq, Structural)]
pub enum EstimatesReply {
    TimedOut,
    Failed,
    /// There are estimates, or none.
    Received { is_empty: bool },
}

/// Why the fee rates are not updated: no reply in time, a failure, or no estimates on the main
/// network.
pub open spec fn fee_update_error(network: Network, reply: EstimatesReply) -> Option<Error> {
    match reply {
        EstimatesReply::TimedOut => Some(Error::FeerateEstimationUpdateTimeout),
        EstimatesReply::Failed => Some(Error::FeerateEstimationUpdateFailed),
        EstimatesReply::Received { is_empty } => if is_empty && network == Network::Bitcoin {
            Some(Error::FeerateEstimationUpdateFailed)
        } else {
            None
        },
    }
}

/// The new fee rates, from what the server estimates (`estimate`), in satoshis per 1000 weight units.
pub fn update_fee_rate_estimates<
    R: Fn(ConfirmationTarget) -> u64,
    A: Fn(ConfirmationTarget, u64) -> u64,
>(
    network: Network,
    reply: EstimatesReply,
    targets: &Vec<ConfirmationTarget>,
    estimate: &R,
    adjust: &A,
) -> (cache: Result<FeeRateCache, Error>)
    requires
        targets@.no_duplicates(),
        forall|target: ConfirmationTarget| #[trigger] call_requires(estimate, (target,)),
        forall|target: ConfirmationTarget, rate: u64| #[trigger]
            call_requires(adjust, (target, rate)),
    ensures
        match fee_update_error(network, reply) {
            Some(e) => cache == Err::<FeeRateCache, Error>(e),
            None => cache matches Ok(cache) && exists|rates: Seq<u64>|
                #![trigger crate::chain::fees::are_rates_for(rates, targets@, *estimate)]
                crate::chain::fees::are_rates_for(rates, targets@, *estimate)
                    && crate::chain::fees::holds_rates(cache@, targets@, rates, *adjust),
        },
{
    match reply {
        EstimatesReply::TimedOut => Err(Error::FeerateEstimationUpdateTimeout),
        EstimatesReply::Failed => Err(Error::FeerateEstimationUpdateFailed),
        EstimatesReply::Received { is_empty } => {
            if is_empty && network == Network::Bitcoin {
                return Err(Error::FeerateEstimationUpdateFailed);
            }
            let rates = rates_for(targets, estimate);
            let cache = fee_rate_cache(targets, &rates, adjust);
            assert(crate::chain::fees::are_rates_for(rates@, targets@, *estimate));
            Ok(cache)
        },
    }
}

/// How much notice a failed broadcast deserves.
#[derive(Clone, Copy, Debug, PartialEq, Eq, Structural)]
pub enum BroadcastNotice {
    /// The transaction was sent.
    Sent,
    /// The server refused it, most often because it is known already.
    Refused,
    /// The broadcast failed.
    Failed,
}

/// How a broadcast ended.
#[derive(Clone, Copy, Debug, PartialEq, Eq, Structural)]
pub enum BroadcastEnd {
    Sent,
    TimedOut,
    /// The server answered with an error.
    HttpStatus(u16),
    OtherError,
}

/// How much notice the end of a broadcast deserves. A bad request often just means that the transaction
/// is known already.
pub fn broadcast_notice(end: BroadcastEnd) -> (notice: BroadcastNotice)
    ensures
        notice == (match end {
            BroadcastEnd::Sent => BroadcastNotice::Sent,
            BroadcastEnd::HttpStatus(status) => if status == 400 {
                BroadcastNotice::Refused
            } else {
                BroadcastNotice::Failed
            },
            _ => BroadcastNotice::Failed,
        }),
{
    match end {
        BroadcastEnd::Sent => BroadcastNotice::Sent,
        BroadcastEnd::HttpStatus(status) => {
            if status == 400 {
                BroadcastNotice::Refused
            } else {
                BroadcastNotice::Failed
            }
        },
        BroadcastEnd::TimedOut => BroadcastNotice::Failed,
        BroadcastEnd::OtherError => BroadcastNotice::Failed,
    }
}

/// Estimates that do not come in time, or do not come at all, fail the update. An empty list fails it on the
/// main network only.
pub proof fn law_why_fee_rates_are_not_updated(network: Network, is_empty: bool)
    ensures
        fee_update_error(network, EstimatesReply::TimedOut) == Some(
            Error::FeerateEstimationUpdateTimeout,
        ),
        fee_update_error(network, EstimatesReply::Failed) == Some(
            Error::FeerateEstimationUpdateFailed,
        ),
        fee_update_error(network, EstimatesReply::Received { is_empty }) is Some <==> is_empty
            && network == Network::Bitcoin,
        fee_update_error(Network::Bitcoin, EstimatesReply::Received { is_empty: true }) == Some(
            Error::FeerateEstimationUpdateFailed,
        ),
{
}

/// The on-chain wallet is scanned the first time, 20 scripts ahead, and brought up to date from then on.
pub proof fn law_the_wallet_is_scanned_once(metrics: NodeMetrics, request: EsploraRequest)
    requires
        call_ensures(onchain_wallet_request, (&metrics,), request),
    ensures
        metrics.latest_onchain_wallet_sync_timestamp is None ==> request.full_scan_stop_gap == Some(
            20usize,
        ),
        metrics.latest_onchain_wallet_sync_timestamp is Some ==> request.full_scan_stop_gap is None,
        request.parallel_requests == 4,
        request.timeout_secs == 20,
{
}

/// A sync of the channels ends with its own result where it ran, and with an error that tells whether the
/// time was over.
pub proof fn law_how_a_sync_of_the_channels_ends(
    own: Result<(), Error>,
    finished: Result<(), Error>,
    timed_out: Result<(), Error>,
    failed: Result<(), Error>,
    lost: Result<(), Error>,
)
    requires
        call_ensures(lightning_sync_result, (TaskEnd::Finished(own),), finished),
        call_ensures(lightning_sync_result, (TaskEnd::<Result<(), Error>>::TimedOut,), timed_out),
        call_ensures(lightning_sync_result, (TaskEnd::<Result<(), Error>>::Failed,), failed),
        call_ensures(lightning_sync_result, (TaskEnd::<Result<(), Error>>::NotJoined,), lost),
    ensures
        finished == own,
        timed_out == Err::<(), Error>(Error::TxSyncTimeout),
        failed == Err::<(), Error>(Error::TxSyncFailed),
        lost == Err::<(), Error>(Error::TxSyncFailed),
{
}

/// A server that answers a broadcast with status 400 refused the transaction; every other error is a failure
/// to send it.
pub proof fn law_refusals_are_told_from_failures(
    status: u16,
    sent: BroadcastNotice,
    answered: BroadcastNotice,
    timed_out: BroadcastNotice,
    other: BroadcastNotice,
)
    requires
        call_ensures(broadcast_notice, (BroadcastEnd::Sent,), sent),
        call_ensures(broadcast_notice, (BroadcastEnd::HttpStatus(status),), answered),
        call_ensures(broadcast_notice, (BroadcastEnd::TimedOut,), timed_out),
        call_ensures(broadcast_notice, (BroadcastEnd::OtherError,), other),
    ensures
        sent is Sent,
        answered is Refused <==> status == 400,
        answered is Failed <==> status != 400,
        timed_out is Failed,
        other is Failed,
{
}

/// The time of a sync is noted exactly if its update was applied.
pub proof fn law_the_time_of_a_sync_is_noted(
    applied: Result<(), Error>,
    now: Option<u64>,
    metrics: &mut NodeMetrics,
    result: Result<(), Error>,
    late: &mut NodeMetrics,
    timed_out: Result<(), Error>,
)
    requires
        call_ensures(finish_onchain_sync, (TaskEnd::Finished(applied), now, metrics), result),
        call_ensures(
            finish_onchain_sync,
            (TaskEnd::<Result<(), Error>>::TimedOut, now, late),
            timed_out,
        ),
    ensures
        result == applied,
        applied is Ok ==> final(metrics).latest_onchain_wallet_sync_timestamp == now,
        applied is Err ==> *final(metrics) == *old(metrics),
        timed_out == Err::<(), Error>(Error::WalletOperationTimeout),
        *final(late) == *old(late),
        final(metrics).latest_lightning_wallet_sync_timestamp == old(
            metrics
        ).latest_lightning_wallet_sync_timestamp,
{
}

} // verus!
