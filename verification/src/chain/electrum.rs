//! Syncing with an Electrum server.
use crate::chain::fees::{fee_rate_cache, ConfirmationTarget, FeeRateCache};
use crate::chain::status::{task_result, TaskEnd};
use crate::chain::sync::WalletSyncRequest;
use crate::config::{
    ElectrumSyncConfig, OnchainWalletAccount, BDK_CLIENT_STOP_GAP, BDK_ELECTRUM_CLIENT_BATCH_SIZE,
    BDK_WALLET_SYNC_TIMEOUT_SECS, DEFAULT_ELECTRUM_CONNECTION_TIMEOUT_SECS,
};
use crate::error::Error;
use crate::types::{BlockHash, Network, OutPoint, Txid};
use vstd::prelude::*;

verus! {

pub const ELECTRUM_CLIENT_NUM_RETRIES: u8 = 3;

/// The timeout of connections: the default in place of none, and no more than fits.
pub open spec fn effective_timeout(configured: u64) -> int {
    let requested = if configured == 0 {
        DEFAULT_ELECTRUM_CONNECTION_TIMEOUT_SECS
    } else {
        configured
    };
    if requested <= 255 {
        requested as int
    } else {
        255
    }
}

/// The timeout of connections. It is always finite: a configured zero stands for the default.
pub fn effective_connection_timeout_secs(configured_timeout_secs: u64) -> (timeout_secs: u8)
    ensures
        timeout_secs == effective_timeout(configured_timeout_secs),
        timeout_secs > 0,
{
    let requested_timeout: u64 = if configured_timeout_secs == 0 {
        DEFAULT_ELECTRUM_CONNECTION_TIMEOUT_SECS
    } else {
        configured_timeout_secs
    };
    if requested_timeout <= 255 {
        requested_timeout as u8
    } else {
        255
    }
}

/// How a scan of all scripts of a wallet goes about it.
#[derive(Clone, Copy, Debug, PartialEq, Eq, Structural)]
pub struct FullScanSettings {
    /// How many unused scripts in a row end the scan.
    pub stop_gap: usize,
    /// How many scripts are asked for in one request.
    pub batch_size: usize,
}

/// How a scan of the primary wallet goes about it.
pub open spec fn primary_settings() -> FullScanSettings {
    FullScanSettings { stop_gap: BDK_CLIENT_STOP_GAP, batch_size: BDK_ELECTRUM_CLIENT_BATCH_SIZE }
}

/// How a scan of the primary wallet goes about it, whatever is configured for the others.
pub fn primary_wallet_full_scan_settings() -> (settings: FullScanSettings)
    ensures
        settings == primary_settings(),
{
    FullScanSettings { stop_gap: BDK_CLIENT_STOP_GAP, batch_size: BDK_ELECTRUM_CLIENT_BATCH_SIZE }
}

/// A number, but at least one.
pub open spec fn at_least_one(n: u32) -> usize {
    if n == 0 {
        1
    } else {
        n as usize
    }
}

/// How scans of the wallets besides the primary one go about it. Neither number is ever zero.
pub fn additional_wallet_full_scan_settings(config: &ElectrumSyncConfig) -> (settings:
    FullScanSettings)
    ensures
        settings == (FullScanSettings {
            stop_gap: at_least_one(config.additional_wallet_full_scan_stop_gap),
            batch_size: at_least_one(config.additional_wallet_full_scan_batch_size),
        }),
{
    let stop_gap: usize = if config.additional_wallet_full_scan_stop_gap == 0 {
        1
    } else {
        config.additional_wallet_full_scan_stop_gap as usize
    };
    let batch_size: usize = if config.additional_wallet_full_scan_batch_size == 0 {
        1
    } else {
        config.additional_wallet_full_scan_batch_size as usize
    };
    FullScanSettings { stop_gap, batch_size }
}

/// How many batches it takes to ask for a number of things.
pub open spec fn batches(n: int, batch_size: int) -> int {
    if n % batch_size == 0 {
        n / batch_size
    } else {
        n / batch_size + 1
    }
}

/// A number, but no more than fits.
pub open spec fn capped(n: int, max: int) -> int {
    if n <= max {
        n
    } else {
        max
    }
}

fn batch_count(n: usize, batch_size: usize) -> (count: usize)
    requires
        batch_size > 0,
    ensures
        count == batches(n as int, batch_size as int),
{
    let whole: usize = n / batch_size;
    if n % batch_size == 0 {
        whole
    } else {
        proof {
            assert(whole < usize::MAX) by (nonlinear_arith)
                requires
                    whole == n as int / batch_size as int,
                    n % batch_size != 0,
                    batch_size > 0,
                    n <= usize::MAX,
            ;
        }
        whole + 1
    }
}

/// The timeout of a request that takes a number of round trips: a second for each of them, on top of
/// what every sync is given.
pub open spec fn timeout_for(request_count: int) -> int {
    capped(BDK_WALLET_SYNC_TIMEOUT_SECS + request_count, u64::MAX as int)
}

/// The timeout, in seconds, of a scan of a number of keychains.
pub fn additional_wallet_full_scan_timeout(
    settings: FullScanSettings,
    keychain_count: usize,
) -> (timeout_secs: u64)
    requires
        settings.batch_size > 0,
    ensures
        timeout_secs == timeout_for(
            capped(
                batches(settings.stop_gap as int, settings.batch_size as int)
                    * keychain_count as int,
                usize::MAX as int,
            ),
        ),
{
    let per_keychain: usize = batch_count(settings.stop_gap, settings.batch_size);
    let request_count: usize = match per_keychain.checked_mul(keychain_count) {
        Some(count) => count,
        None => usize::MAX,
    };
    BDK_WALLET_SYNC_TIMEOUT_SECS.saturating_add(request_count as u64)
}

/// How many scripts an incremental sync of a wallet asks for in one request.
pub fn additional_wallet_incremental_batch_size(
    account_index: u32,
    full_scan_settings: FullScanSettings,
) -> (batch_size: usize)
    ensures
        batch_size == (if account_index == 0 {
            BDK_ELECTRUM_CLIENT_BATCH_SIZE
        } else {
            full_scan_settings.batch_size
        }),
{
    if account_index == 0 {
        BDK_ELECTRUM_CLIENT_BATCH_SIZE
    } else {
        full_scan_settings.batch_size
    }
}

/// How far a sync is.
#[derive(Clone, Copy, Debug, PartialEq, Eq, Structural)]
pub struct SyncProgress {
    pub spks_consumed: usize,
    pub spks_remaining: usize,
    pub txids_consumed: usize,
    pub txids_remaining: usize,
    pub outpoints_consumed: usize,
    pub outpoints_remaining: usize,
}

/// How many round trips are left of a sync.
pub open spec fn requests_left(progress: SyncProgress, batch_size: int) -> int {
    batches(progress.spks_remaining as int, batch_size) + progress.txids_remaining
        + progress.outpoints_remaining
}

/// The timeout, in seconds, of an incremental sync.
pub fn derived_wallet_incremental_sync_timeout(
    progress: SyncProgress,
    batch_size: usize,
) -> (timeout_secs: u64)
    requires
        batch_size > 0,
    ensures
        timeout_secs == timeout_for(
            capped(requests_left(progress, batch_size as int), usize::MAX as int),
        ),
{
    let request_count: usize = batch_count(progress.spks_remaining, batch_size).saturating_add(
        progress.txids_remaining,
    ).saturating_add(progress.outpoints_remaining);
    BDK_WALLET_SYNC_TIMEOUT_SECS.saturating_add(request_count as u64)
}

/// A scan that asks for more never gets less time.
pub proof fn law_a_longer_gap_gets_more_time(gap: int, longer: int, batch_size: int, keychains: int)
    requires
        0 <= gap <= longer,
        batch_size > 0,
        keychains >= 0,
    ensures
        timeout_for(capped(batches(gap, batch_size) * keychains, usize::MAX as int))
            <= timeout_for(capped(batches(longer, batch_size) * keychains, usize::MAX as int)),
{
    let a = batches(gap, batch_size);
    let b = batches(longer, batch_size);
    assert(a <= b) by {
        vstd::arithmetic::div_mod::lemma_fundamental_div_mod(gap, batch_size);
        vstd::arithmetic::div_mod::lemma_fundamental_div_mod(longer, batch_size);
        let (q1, r1) = (gap / batch_size, gap % batch_size);
        let (q2, r2) = (longer / batch_size, longer % batch_size);
        assert(0 <= r1 < batch_size && 0 <= r2 < batch_size);
        assert(a <= b) by (nonlinear_arith)
            requires
                batch_size * q1 + r1 <= batch_size * q2 + r2,
                0 <= r1 < batch_size,
                0 <= r2 < batch_size,
                a == (if r1 == 0 { q1 } else { q1 + 1 }),
                b == (if r2 == 0 { q2 } else { q2 + 1 }),
        ;
    }
    assert(a * keychains <= b * keychains) by (nonlinear_arith)
        requires
            a <= b,
            keychains >= 0,
    ;
}

/// A request that goes to the server: for the primary wallet, or for an account besides it.
#[derive(Clone, Copy, Debug, PartialEq, Eq, Structural)]
pub struct SyncTask {
    pub account: Option<OnchainWalletAccount>,
    /// Whether all scripts are scanned, with this gap, or only what is known is brought up to date.
    pub full_scan_stop_gap: Option<usize>,
    pub batch_size: usize,
    pub timeout_secs: u64,
}

/// The request for the primary wallet.
pub open spec fn primary_task(incremental: bool) -> SyncTask {
    SyncTask {
        account: None,
        full_scan_stop_gap: if incremental {
            None
        } else {
            Some(primary_settings().stop_gap)
        },
        batch_size: primary_settings().batch_size,
        timeout_secs: BDK_WALLET_SYNC_TIMEOUT_SECS,
    }
}

/// Whether a task is the request for an account besides the primary wallet. A full scan knows the
/// number of its keychains, an incremental sync how far it is.
pub open spec fn is_task_for(
    task: SyncTask,
    account: OnchainWalletAccount,
    request: WalletSyncRequest<usize, SyncProgress>,
    settings: FullScanSettings,
) -> bool {
    let incremental_batch_size = if account.account_index == 0 {
        BDK_ELECTRUM_CLIENT_BATCH_SIZE
    } else {
        settings.batch_size
    };
    &&& task.account == Some(account)
    &&& match request {
        WalletSyncRequest::Incremental(progress) => {
            &&& task.full_scan_stop_gap is None
            &&& task.batch_size == incremental_batch_size
            &&& task.timeout_secs == if account.account_index == 0 {
                BDK_WALLET_SYNC_TIMEOUT_SECS as int
            } else {
                timeout_for(
                    capped(
                        requests_left(progress, incremental_batch_size as int),
                        usize::MAX as int,
                    ),
                )
            }
        },
        WalletSyncRequest::FullScan(keychain_count) => {
            &&& task.full_scan_stop_gap == Some(settings.stop_gap)
            &&& task.batch_size == settings.batch_size
            &&& task.timeout_secs == timeout_for(
                capped(
                    batches(settings.stop_gap as int, settings.batch_size as int)
                        * keychain_count as int,
                    usize::MAX as int,
                ),
            )
        },
    }
}

/// The requests that a sync of the on-chain wallet makes: one for the primary wallet, then one for
/// each of the other accounts.
pub fn sync_tasks(
    primary_incremental: bool,
    additional: &Vec<(OnchainWalletAccount, WalletSyncRequest<usize, SyncProgress>)>,
    config: &ElectrumSyncConfig,
) -> (tasks: Vec<SyncTask>)
    ensures
        tasks@.len() == additional@.len() + 1,
        tasks@[0] == primary_task(primary_incremental),
        forall|i: int|
            0 <= i < additional@.len() ==> is_task_for(
                tasks@[i + 1],
                (#[trigger] additional@[i]).0,
                additional@[i].1,
                FullScanSettings {
                    stop_gap: at_least_one(config.additional_wallet_full_scan_stop_gap),
                    batch_size: at_least_one(config.additional_wallet_full_scan_batch_size),
                },
            ),
{
    let settings = additional_wallet_full_scan_settings(config);
    let primary_settings = primary_wallet_full_scan_settings();
    let mut tasks: Vec<SyncTask> = Vec::new();
    let full_scan_stop_gap = if primary_incremental {
        None
    } else {
        Some(primary_settings.stop_gap)
    };
    tasks.push(
        SyncTask {
            account: None,
            full_scan_stop_gap,
            batch_size: primary_settings.batch_size,
            timeout_secs: BDK_WALLET_SYNC_TIMEOUT_SECS,
        },
    );
    let mut i: usize = 0;
    while i < additional.len()
        invariant
            i <= additional@.len(),
            tasks@.len() == i + 1,
            tasks@[0] == primary_task(primary_incremental),
            settings.batch_size > 0,
            forall|j: int|
                0 <= j < i ==> is_task_for(
                    tasks@[j + 1],
                    (#[trigger] additional@[j]).0,
                    additional@[j].1,
                    settings,
                ),
        decreases additional@.len() - i,
    {
        let account = additional[i].0;
        let incremental_batch_size: usize = additional_wallet_incremental_batch_size(
            account.account_index,
            settings,
        );
        let task = match &additional[i].1 {
            WalletSyncRequest::Incremental(progress) => {
                let timeout_secs: u64 = if account.account_index == 0 {
                    BDK_WALLET_SYNC_TIMEOUT_SECS
                } else {
                    derived_wallet_incremental_sync_timeout(*progress, incremental_batch_size)
                };
                SyncTask {
                    account: Some(account),
                    full_scan_stop_gap: None,
                    batch_size: incremental_batch_size,
                    timeout_secs,
                }
            },
            WalletSyncRequest::FullScan(keychain_count) => SyncTask {
                account: Some(account),
                full_scan_stop_gap: Some(settings.stop_gap),
                batch_size: settings.batch_size,
                timeout_secs: additional_wallet_full_scan_timeout(settings, *keychain_count),
            },
        };
        tasks.push(task);
        i += 1;
    }
    tasks
}

/// The result of a task that fetched an update of a wallet.
pub fn wallet_update<U>(end: TaskEnd<U>) -> (result: Result<U, Error>)
    ensures
        result == (match end {
            TaskEnd::Finished(update) => Ok::<U, Error>(update),
            TaskEnd::TimedOut => Err::<U, Error>(Error::WalletOperationTimeout),
            _ => Err::<U, Error>(Error::WalletOperationFailed),
        }),
{
    task_result(end, Error::WalletOperationTimeout, Error::WalletOperationFailed)
}

/// The result of a task that synced the Lightning wallet.
pub fn sync_confirmables(end: TaskEnd<()>) -> (result: Result<(), Error>)
    ensures
        result == (match end {
            TaskEnd::Finished(_) => Ok::<(), Error>(()),
            TaskEnd::TimedOut => Err::<(), Error>(Error::TxSyncTimeout),
            _ => Err::<(), Error>(Error::TxSyncFailed),
        }),
{
    task_result(end, Error::TxSyncTimeout, Error::TxSyncFailed)
}

/// A script.
pub type ScriptBytes = Vec<u8>;

/// An output to look out for.
#[derive(Clone, Debug)]
pub struct WatchedOutput {
    pub block_hash: Option<BlockHash>,
    pub outpoint: OutPoint,
    pub script_pubkey: ScriptBytes,
}

/// What was registered to look out for before there was a client.
pub struct PendingRegistrations {
    pub txs: Vec<(Txid, ScriptBytes)>,
    pub outputs: Vec<WatchedOutput>,
}

/// Whether there is a client. Until there is, registrations are kept for it.
pub enum ElectrumRuntimeStatus<C> {
    Started(C),
    Stopped(PendingRegistrations),
}

/// What to do with a registration: a client takes it at once.
pub enum Registration<T> {
    HandToClient(T),
    Kept,
}

impl<C> ElectrumRuntimeStatus<C> {
    /// The registrations that are kept.
    pub open spec fn kept(self) -> (Seq<(Txid, ScriptBytes)>, Seq<WatchedOutput>) {
        match self {
            ElectrumRuntimeStatus::Started(_) => (Seq::empty(), Seq::empty()),
            ElectrumRuntimeStatus::Stopped(pending) => (pending.txs@, pending.outputs@),
        }
    }

    pub fn new() -> (status: Self)
        ensures
            status is Stopped,
            status.kept() == (Seq::<(Txid, ScriptBytes)>::empty(), Seq::<WatchedOutput>::empty()),
    {
        ElectrumRuntimeStatus::Stopped(
            PendingRegistrations { txs: Vec::new(), outputs: Vec::new() },
        )
    }

    /// Takes the client that was connected, and gives back the registrations that it is handed first.
    /// Where the connection failed everything stays as it is.
    pub fn start(&mut self, client: Result<C, Error>) -> (handed: Result<
        PendingRegistrations,
        Error,
    >)
        requires
            *old(self) is Stopped,
        ensures
            match client {
                Ok(client) => {
                    &&& *final(self) == ElectrumRuntimeStatus::Started(client)
                    &&& handed matches Ok(pending) && (pending.txs@, pending.outputs@) == old(
                        self,
                    ).kept()
                },
                Err(e) => *final(self) == *old(self) && handed == Err::<
                    PendingRegistrations,
                    Error,
                >(e),
            },
    {
        match client {
            Err(e) => Err(e),
            Ok(client) => {
                let mut txs: Vec<(Txid, ScriptBytes)> = Vec::new();
                let mut outputs: Vec<WatchedOutput> = Vec::new();
                if let ElectrumRuntimeStatus::Stopped(pending) = self {
                    std::mem::swap(&mut txs, &mut pending.txs);
                    std::mem::swap(&mut outputs, &mut pending.outputs);
                }
                *self = ElectrumRuntimeStatus::Started(client);
                Ok(PendingRegistrations { txs, outputs })
            },
        }
    }

    pub fn stop(&mut self)
        ensures
            *final(self) is Stopped,
            final(self).kept() == (
                Seq::<(Txid, ScriptBytes)>::empty(),
                Seq::<WatchedOutput>::empty(),
            ),
    {
        *self = ElectrumRuntimeStatus::new();
    }

    pub fn client(&self) -> (client: Option<&C>)
        ensures
            match client {
                Some(c) => *self == ElectrumRuntimeStatus::Started(*c),
                None => *self is Stopped,
            },
    {
        match self {
            ElectrumRuntimeStatus::Started(client) => Some(client),
            ElectrumRuntimeStatus::Stopped(_) => None,
        }
    }

    /// Registers a transaction to look out for.
    pub fn register_tx(&mut self, txid: Txid, script_pubkey: ScriptBytes) -> (registration:
        Registration<(Txid, ScriptBytes)>)
        ensures
            match *old(self) {
                ElectrumRuntimeStatus::Started(_) => *final(self) == *old(self) && registration
                    == Registration::HandToClient((txid, script_pubkey)),
                ElectrumRuntimeStatus::Stopped(_) => *final(self) is Stopped
                    && registration is Kept && final(self).kept() == (
                    old(self).kept().0.push((txid, script_pubkey)),
                    old(self).kept().1,
                ),
            },
    {
        match self {
            ElectrumRuntimeStatus::Started(_) => Registration::HandToClient((txid, script_pubkey)),
            ElectrumRuntimeStatus::Stopped(pending) => {
                pending.txs.push((txid, script_pubkey));
                Registration::Kept
            },
        }
    }

    /// Registers an output to look out for.
    pub fn register_output(&mut self, output: WatchedOutput) -> (registration: Registration<
        WatchedOutput,
    >)
        ensures
            match *old(self) {
                ElectrumRuntimeStatus::Started(_) => *final(self) == *old(self) && registration
                    == Registration::HandToClient(output),
                ElectrumRuntimeStatus::Stopped(_) => *final(self) is Stopped
                    && registration is Kept && final(self).kept() == (
                    old(self).kept().0,
                    old(self).kept().1.push(output),
                ),
            },
    {
        match self {
            ElectrumRuntimeStatus::Started(_) => Registration::HandToClient(output),
            ElectrumRuntimeStatus::Stopped(pending) => {
                pending.outputs.push(output);
                Registration::Kept
            },
        }
    }
}

/// What to do first when the on-chain wallet is to be synced: without a client there is nothing to do.
pub fn client_for_onchain_sync<C>(status: &ElectrumRuntimeStatus<C>) -> (client: Result<&C, Error>)
    ensures
        match *status {
            ElectrumRuntimeStatus::Started(c) => client == Ok::<&C, Error>(&c),
            ElectrumRuntimeStatus::Stopped(_) => client == Err::<&C, Error>(
                Error::FeerateEstimationUpdateFailed,
            ),
        },
{
    match status.client() {
        Some(client) => Ok(client),
        None => Err(Error::FeerateEstimationUpdateFailed),
    }
}

/// What to do first when the Lightning wallet is to be synced: without a client there is nothing to do.
pub fn client_for_lightning_sync<C>(status: &ElectrumRuntimeStatus<C>) -> (client: Result<
    &C,
    Error,
>)
    ensures
        match *status {
            ElectrumRuntimeStatus::Started(c) => client == Ok::<&C, Error>(&c),
            ElectrumRuntimeStatus::Stopped(_) => client == Err::<&C, Error>(Error::TxSyncFailed),
        },
{
    match status.client() {
        Some(client) => Ok(client),
        None => Err(Error::TxSyncFailed),
    }
}

/// The balance of an address, where the server told it. Negative amounts count as nothing.
pub fn get_address_balance(reply: Option<(u64, i64)>) -> (balance: Option<u64>)
    requires
        reply matches Some((confirmed, unconfirmed)) ==> confirmed + unconfirmed <= u64::MAX,
    ensures
        balance == (match reply {
            Some((confirmed, unconfirmed)) => Some(
                (confirmed + if unconfirmed < 0 {
                    0
                } else {
                    unconfirmed as int
                }) as u64,
            ),
            None => None,
        }),
{
    match reply {
        Some((confirmed, unconfirmed)) => {
            let unconfirmed: u64 = if unconfirmed < 0 {
                0
            } else {
                unconfirmed as u64
            };
            Some(confirmed + unconfirmed)
        },
        None => None,
    }
}

/// Why the fee rates are not updated, going by what the server gave: nothing in time, nothing at
/// all, or not all of them on the main network.
pub open spec fn fee_update_error(
    network: Network,
    target_count: int,
    estimates: TaskEnd<Vec<u64>>,
) -> Option<Error> {
    match estimates {
        TaskEnd::TimedOut => Some(Error::FeerateEstimationUpdateTimeout),
        TaskEnd::NotJoined => Some(Error::FeerateEstimationUpdateFailed),
        TaskEnd::Failed => Some(Error::FeerateEstimationUpdateFailed),
        TaskEnd::Finished(estimates) => if estimates@.len() != target_count
            && network == Network::Bitcoin {
            Some(Error::FeerateEstimationUpdateFailed)
        } else {
            None
        },
    }
}

/// The new fee rates, from what the server estimates for each target, in satoshis per 1000 weight
/// units.
pub fn get_fee_rate_cache_update<A: Fn(ConfirmationTarget, u64) -> u64>(
    network: Network,
    targets: &Vec<ConfirmationTarget>,
    estimates: TaskEnd<Vec<u64>>,
    adjust: &A,
) -> (cache: Result<FeeRateCache, Error>)
    requires
        targets@.no_duplicates(),
        forall|target: ConfirmationTarget, rate: u64| #[trigger]
            call_requires(adjust, (target, rate)),
    ensures
        match fee_update_error(network, targets@.len() as int, estimates) {
            Some(e) => cache == Err::<FeeRateCache, Error>(e),
            None => cache matches Ok(cache) && crate::chain::fees::holds_rates(
                cache@,
                targets@,
                estimates->Finished_0@,
                *adjust,
            ),
        },
{
    let estimates = match task_result(
        estimates,
        Error::FeerateEstimationUpdateTimeout,
        Error::FeerateEstimationUpdateFailed,
    ) {
        Ok(estimates) => estimates,
        Err(e) => {
            return Err(e);
        },
    };
    if estimates.len() != targets.len() && network == Network::Bitcoin {
        return Err(Error::FeerateEstimationUpdateFailed);
    }
    Ok(fee_rate_cache(targets, &estimates, adjust))
}

/// A connection is given the configured time, ten seconds where it is zero, and 255 seconds at most.
pub proof fn law_connections_are_given_the_configured_time(configured: u64)
    ensures
        configured == 0 ==> effective_timeout(configured) == 10,
        1 <= configured <= 255 ==> effective_timeout(configured) == configured,
        configured > 255 ==> effective_timeout(configured) == 255,
{
}

/// So many batches are made as hold everything, and not one more.
pub proof fn law_batches_hold_everything(n: int, batch_size: int)
    requires
        n >= 0,
        batch_size > 0,
    ensures
        batches(n, batch_size) * batch_size >= n,
        n > 0 ==> (batches(n, batch_size) - 1) * batch_size < n,
        n == 0 ==> batches(n, batch_size) == 0,
{
    vstd::arithmetic::div_mod::lemma_fundamental_div_mod(n, batch_size);
    let (q, r) = (n / batch_size, n % batch_size);
    let b = batches(n, batch_size);
    if n == 0 {
        assert(q == 0 && r == 0) by (nonlinear_arith)
            requires
                q == 0int / batch_size,
                r == 0int % batch_size,
                batch_size > 0,
        ;
    }
    assert(b * batch_size >= n && (n > 0 ==> (b - 1) * batch_size < n)) by (nonlinear_arith)
        requires
            n == batch_size * q + r,
            0 <= r < batch_size,
            b == (if r == 0 {
                q
            } else {
                q + 1
            }),
    ;
}

/// A sync is given 20 seconds and one more for each request, as far as they can be counted. The scripts of
/// an incremental sync go in batches, its transactions and outputs one by one.
pub proof fn law_every_request_gets_a_second(
    request_count: int,
    more: int,
    progress: SyncProgress,
    batch_size: int,
)
    requires
        0 <= request_count,
        0 <= more,
        batch_size > 0,
    ensures
        20 + request_count <= u64::MAX ==> timeout_for(request_count) == 20 + request_count,
        timeout_for(request_count) <= u64::MAX,
        20 + request_count > u64::MAX ==> timeout_for(request_count) == u64::MAX,
        request_count <= more ==> capped(request_count, more) == request_count,
        request_count >= more ==> capped(request_count, more) == more,
        requests_left(progress, batch_size) == batches(progress.spks_remaining as int, batch_size)
            + progress.txids_remaining + progress.outpoints_remaining,
{
}

/// The primary wallet looks 20 scripts ahead in a scan, asks for five at a time and has 20 seconds. Only a
/// wallet that was not synced yet is scanned.
pub proof fn law_the_primary_wallet_is_scanned_once(incremental: bool)
    ensures
        primary_settings().stop_gap == 20,
        primary_settings().batch_size == 5,
        primary_task(incremental).account is None,
        primary_task(incremental).batch_size == 5,
        primary_task(incremental).timeout_secs == 20,
        primary_task(true).full_scan_stop_gap is None,
        primary_task(false).full_scan_stop_gap == Some(20usize),
{
}

/// The tasks of the other wallets: a scan with the configured gap and batches, or an incremental sync with
/// the configured batches, which takes as long as its requests ask for; the first account of a kind of
/// address goes with the batches and the time of the primary wallet instead.
pub proof fn law_tasks_are_those_of_their_accounts(
    task: SyncTask,
    account: OnchainWalletAccount,
    request: WalletSyncRequest<usize, SyncProgress>,
    settings: FullScanSettings,
)
    requires
        is_task_for(task, account, request, settings),
    ensures
        task.account == Some(account),
        task.full_scan_stop_gap is Some <==> request is FullScan,
        request matches WalletSyncRequest::FullScan(keychains) ==> {
            &&& task.full_scan_stop_gap == Some(settings.stop_gap)
            &&& task.batch_size == settings.batch_size
            &&& task.timeout_secs == timeout_for(
                capped(
                    batches(settings.stop_gap as int, settings.batch_size as int) * keychains,
                    usize::MAX as int,
                ),
            )
        },
        request is Incremental && account.account_index == 0 ==> task.batch_size == 5
            && task.timeout_secs == 20,
        request matches WalletSyncRequest::Incremental(progress) ==> (account.account_index > 0
            ==> task.batch_size == settings.batch_size && task.timeout_secs == timeout_for(
            capped(
                requests_left(progress, settings.batch_size as int),
                usize::MAX as int,
            ),
        )),
{
}

/// A setting of zero counts as one, and every other one as it is.
pub proof fn law_settings_are_at_least_one(n: u32)
    ensures
        at_least_one(n) >= 1,
        n >= 1 ==> at_least_one(n) == n,
        at_least_one(0) == 1,
{
}

/// What is registered with a client that does not run yet is kept for it, and nothing is kept by one that
/// runs.
pub proof fn law_registrations_are_kept_until_the_start<C>(
    client: C,
    pending: PendingRegistrations,
)
    ensures
        ElectrumRuntimeStatus::<C>::Stopped(pending).kept() == (pending.txs@, pending.outputs@),
        ElectrumRuntimeStatus::<C>::Started(client).kept().0.len() == 0,
        ElectrumRuntimeStatus::<C>::Started(client).kept().1.len() == 0,
{
}

/// Estimates that do not come in time, or do not come at all, fail the update. A list that is too short or
/// too long fails it on the main network only.
pub proof fn law_why_fee_rates_are_not_updated(
    network: Network,
    target_count: int,
    estimates: Vec<u64>,
)
    ensures
        fee_update_error(network, target_count, TaskEnd::TimedOut) == Some(
            Error::FeerateEstimationUpdateTimeout,
        ),
        fee_update_error(network, target_count, TaskEnd::Failed) == Some(
            Error::FeerateEstimationUpdateFailed,
        ),
        fee_update_error(network, target_count, TaskEnd::NotJoined) == Some(
            Error::FeerateEstimationUpdateFailed,
        ),
        fee_update_error(network, target_count, TaskEnd::Finished(estimates)) is Some
            <==> estimates@.len() != target_count && network == Network::Bitcoin,
        fee_update_error(network, target_count, TaskEnd::Finished(estimates)) matches Some(e) ==> e
            == Error::FeerateEstimationUpdateFailed,
{
}

/// How tasks end: with their update where they ran, and otherwise with an error that tells whether the time
/// was over.
pub proof fn law_how_tasks_end(
    update: u64,
    finished: Result<u64, Error>,
    timed_out: Result<u64, Error>,
    failed: Result<u64, Error>,
    lost: Result<u64, Error>,
    synced: Result<(), Error>,
    too_late: Result<(), Error>,
    not_synced: Result<(), Error>,
    not_joined: Result<(), Error>,
)
    requires
        call_ensures(wallet_update::<u64>, (TaskEnd::Finished(update),), finished),
        call_ensures(wallet_update::<u64>, (TaskEnd::<u64>::TimedOut,), timed_out),
        call_ensures(wallet_update::<u64>, (TaskEnd::<u64>::Failed,), failed),
        call_ensures(wallet_update::<u64>, (TaskEnd::<u64>::NotJoined,), lost),
        call_ensures(sync_confirmables, (TaskEnd::Finished(()),), synced),
        call_ensures(sync_confirmables, (TaskEnd::<()>::TimedOut,), too_late),
        call_ensures(sync_confirmables, (TaskEnd::<()>::Failed,), not_synced),
        call_ensures(sync_confirmables, (TaskEnd::<()>::NotJoined,), not_joined),
    ensures
        finished == Ok::<u64, Error>(update),
        timed_out == Err::<u64, Error>(Error::WalletOperationTimeout),
        failed == Err::<u64, Error>(Error::WalletOperationFailed),
        lost == Err::<u64, Error>(Error::WalletOperationFailed),
        synced == Ok::<(), Error>(()),
        too_late == Err::<(), Error>(Error::TxSyncTimeout),
        not_synced == Err::<(), Error>(Error::TxSyncFailed),
        not_joined == Err::<(), Error>(Error::TxSyncFailed),
{
}

/// The balance of an address is what is confirmed and what comes in, and what goes out does not lower it.
pub proof fn law_balances_do_not_fall_below_what_is_confirmed(
    confirmed: u64,
    unconfirmed: i64,
    balance: Option<u64>,
    untold: Option<u64>,
)
    requires
        confirmed + unconfirmed <= u64::MAX,
        call_ensures(get_address_balance, (Some((confirmed, unconfirmed)),), balance),
        call_ensures(get_address_balance, (None,), untold),
    ensures
        balance is Some,
        unconfirmed >= 0 ==> balance->0 == confirmed + unconfirmed,
        unconfirmed < 0 ==> balance->0 == confirmed,
        untold is None,
{
}

/// The first account of a kind of address asks for five scripts at a time, and every other one for as many
/// as a scan does.
pub proof fn law_batches_of_incremental_syncs(
    account_index: u32,
    settings: FullScanSettings,
    batch_size: usize,
)
    requires
        call_ensures(
            additional_wallet_incremental_batch_size,
            (account_index, settings),
            batch_size,
        ),
    ensures
        account_index == 0 ==> batch_size == 5,
        account_index != 0 ==> batch_size == settings.batch_size,
{
}

/// What is synced with a server: the primary wallet first, and then each other wallet, with a task of its
/// own.
pub proof fn law_every_wallet_has_a_task(
    incremental: bool,
    additional: Vec<(OnchainWalletAccount, WalletSyncRequest<usize, SyncProgress>)>,
    config: ElectrumSyncConfig,
    tasks: Vec<SyncTask>,
    i: int,
)
    requires
        call_ensures(sync_tasks, (incremental, &additional, &config), tasks),
    ensures
        tasks@.len() == additional@.len() + 1,
        tasks@[0].account is None,
        tasks@[0].full_scan_stop_gap is None <==> incremental,
        0 <= i < additional@.len() ==> tasks@[i + 1].account == Some(additional@[i].0),
        0 <= i < additional@.len() ==> (tasks@[i + 1].full_scan_stop_gap is Some
            <==> additional@[i].1 is FullScan),
{
    if 0 <= i < additional@.len() {
        assert(additional@[i] == additional@[i]);
        law_tasks_are_those_of_their_accounts(
            tasks@[i + 1],
            additional@[i].0,
            additional@[i].1,
            FullScanSettings {
                stop_gap: at_least_one(config.additional_wallet_full_scan_stop_gap),
                batch_size: at_least_one(config.additional_wallet_full_scan_batch_size),
            },
        );
    }
}

/// What is registered before the start is handed over at the start, in order; what is registered after it goes
/// to the client at once; and a start that fails keeps everything.
pub proof fn law_registrations_reach_the_client(
    waiting: &mut ElectrumRuntimeStatus<u64>,
    txid: Txid,
    script: ScriptBytes,
    kept: Registration<(Txid, ScriptBytes)>,
    starting: &mut ElectrumRuntimeStatus<u64>,
    client: u64,
    handed: Result<PendingRegistrations, Error>,
    failing: &mut ElectrumRuntimeStatus<u64>,
    e: Error,
    failed: Result<PendingRegistrations, Error>,
)
    requires
        *old(starting) is Stopped,
        *old(failing) is Stopped,
        call_ensures(ElectrumRuntimeStatus::<u64>::register_tx, (waiting, txid, script), kept),
        call_ensures(ElectrumRuntimeStatus::<u64>::start, (starting, Ok(client)), handed),
        call_ensures(ElectrumRuntimeStatus::<u64>::start, (failing, Err(e)), failed),
    ensures
        *old(waiting) is Started ==> kept == Registration::HandToClient((txid, script))
            && *final(waiting) == *old(waiting),
        *old(waiting) is Stopped ==> kept is Kept && final(waiting).kept().0 == old(
            waiting
        ).kept().0.push((txid, script)) && final(waiting).kept().1 == old(waiting).kept().1,
        *final(starting) == ElectrumRuntimeStatus::Started(client),
        handed matches Ok(pending) && pending.txs@ == old(starting).kept().0 && pending.outputs@
            == old(starting).kept().1,
        *final(failing) == *old(failing),
        failed == Err::<PendingRegistrations, Error>(e),
{
}

} // verus!
