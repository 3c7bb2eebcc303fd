//! Putting what the chain sources found into the wallets.
use crate::config::OnchainWalletAccount;
use crate::error::Error;
use crate::metrics::{contains_account, NodeMetrics};
use vstd::prelude::*;

verus! {

/// What the node remembers of the syncs of its wallets.
pub struct SyncState {
    pub metrics: NodeMetrics,
    /// The accounts with an index above zero that were synced since they were loaded.
    pub synced_derived: Vec<OnchainWalletAccount>,
}

impl SyncState {
    /// Nothing was synced yet.
    pub fn new() -> (state: Self)
        ensures
            state.metrics.latest_onchain_wallet_sync_timestamp is None,
            state.metrics.wallet_sync_timestamps@ == Map::<OnchainWalletAccount, u64>::empty(),
            state.synced_derived@ == Seq::<OnchainWalletAccount>::empty(),
    {
        SyncState { metrics: NodeMetrics::new(), synced_derived: Vec::new() }
    }

    /// Whether an account that was loaded by its index was synced since.
    pub fn has_synced_derived_account(&self, account: OnchainWalletAccount) -> (synced: bool)
        ensures
            synced == self.synced_derived@.contains(account),
    {
        contains_account(&self.synced_derived, account)
    }

    /// Notes that an account that was loaded by its index was synced.
    pub fn mark_derived_account_synced(&mut self, account: OnchainWalletAccount)
        ensures
            final(self).metrics == old(self).metrics,
            final(self).synced_derived@ == marked(old(self).synced_derived@, account),
    {
        if !contains_account(&self.synced_derived, account) {
            self.synced_derived.push(account);
        }
    }
}

/// A list of accounts with one account added, unless it is in it.
pub open spec fn marked(
    accounts: Seq<OnchainWalletAccount>,
    account: OnchainWalletAccount,
) -> Seq<OnchainWalletAccount> {
    if accounts.contains(account) {
        accounts
    } else {
        accounts.push(account)
    }
}

/// Whether a sync of an account can start from what the account knows already.
pub open spec fn is_incremental(account: OnchainWalletAccount, state: SyncState) -> bool {
    if account.account_index == 0 {
        state.metrics.synced_at(account) is Some
    } else {
        state.synced_derived@.contains(account)
    }
}

/// Whether a sync of an account can start from what the account knows already: it was synced before.
pub fn should_use_incremental_sync(account: OnchainWalletAccount, state: &SyncState) -> (b: bool)
    ensures
        b == is_incremental(account, *state),
{
    if account.account_index == 0 {
        state.metrics.get_wallet_sync_timestamp(account).is_some()
    } else {
        state.has_synced_derived_account(account)
    }
}

/// What a chain source is asked for on behalf of a wallet.
#[derive(Clone, Copy, Debug)]
pub enum WalletSyncRequest<F, I> {
    FullScan(F),
    Incremental(I),
}

/// A request for an account as the wallet made it.
pub open spec fn is_request_for<F, I, MakeFull, MakeIncremental>(
    account: OnchainWalletAccount,
    state: SyncState,
    full: MakeFull,
    incremental: MakeIncremental,
    request: WalletSyncRequest<F, I>,
) -> bool where
    MakeFull: Fn(OnchainWalletAccount) -> Result<F, Error>,
    MakeIncremental: Fn(OnchainWalletAccount) -> Result<I, Error>,
 {
    match request {
        WalletSyncRequest::Incremental(r) => is_incremental(account, state) && call_ensures(
            incremental,
            (account,),
            Ok(r),
        ),
        WalletSyncRequest::FullScan(r) => !is_incremental(account, state) && call_ensures(
            full,
            (account,),
            Ok(r),
        ),
    }
}

/// The wallet refused to make a request for an account.
pub open spec fn is_refused<F, I, MakeFull, MakeIncremental>(
    account: OnchainWalletAccount,
    state: SyncState,
    full: MakeFull,
    incremental: MakeIncremental,
) -> bool where
    MakeFull: Fn(OnchainWalletAccount) -> Result<F, Error>,
    MakeIncremental: Fn(OnchainWalletAccount) -> Result<I, Error>,
 {
    if is_incremental(account, state) {
        exists|e: Error| call_ensures(incremental, (account,), Err::<I, Error>(e))
    } else {
        exists|e: Error| call_ensures(full, (account,), Err::<F, Error>(e))
    }
}

/// A request for each of the accounts, or a failure where the wallet refuses to make one of them.
pub fn collect_additional_sync_requests<F, I, MakeFull, MakeIncremental>(
    additional_accounts: &Vec<OnchainWalletAccount>,
    state: &SyncState,
    full: &MakeFull,
    incremental: &MakeIncremental,
) -> (requests: Result<Vec<(OnchainWalletAccount, WalletSyncRequest<F, I>)>, Error>) where
    MakeFull: Fn(OnchainWalletAccount) -> Result<F, Error>,
    MakeIncremental: Fn(OnchainWalletAccount) -> Result<I, Error>,

    requires
        forall|account: OnchainWalletAccount| #[trigger] call_requires(full, (account,)),
        forall|account: OnchainWalletAccount| #[trigger] call_requires(incremental, (account,)),
    ensures
        match requests {
            Ok(requests) => {
                &&& requests@.len() == additional_accounts@.len()
                &&& forall|i: int|
                    0 <= i < requests@.len() ==> {
                        &&& (#[trigger] requests@[i]).0 == additional_accounts@[i]
                        &&& is_request_for(
                            additional_accounts@[i],
                            *state,
                            *full,
                            *incremental,
                            requests@[i].1,
                        )
                    }
            },
            Err(e) => {
                &&& e == Error::WalletOperationFailed
                &&& exists|i: int|
                    0 <= i < additional_accounts@.len() && is_refused::<F, I, _, _>(
                        #[trigger] additional_accounts@[i],
                        *state,
                        *full,
                        *incremental,
                    )
            },
        },
{
    let mut requests: Vec<(OnchainWalletAccount, WalletSyncRequest<F, I>)> = Vec::new();
    let mut i: usize = 0;
    while i < additional_accounts.len()
        invariant
            i <= additional_accounts@.len(),
            requests@.len() == i,
            forall|account: OnchainWalletAccount| #[trigger] call_requires(full, (account,)),
            forall|account: OnchainWalletAccount| #[trigger]
                call_requires(incremental, (account,)),
            forall|j: int|
                0 <= j < i ==> {
                    &&& (#[trigger] requests@[j]).0 == additional_accounts@[j]
                    &&& is_request_for(
                        additional_accounts@[j],
                        *state,
                        *full,
                        *incremental,
                        requests@[j].1,
                    )
                },
        decreases additional_accounts@.len() - i,
    {
        let account = additional_accounts[i];
        let request = if should_use_incremental_sync(account, state) {
            match incremental(account) {
                Ok(r) => WalletSyncRequest::Incremental(r),
                Err(e) => {
                    assert(call_ensures(*incremental, (account,), Err::<I, Error>(e)));
                    assert(is_refused::<F, I, _, _>(
                        additional_accounts@[i as int],
                        *state,
                        *full,
                        *incremental,
                    ));
                    return Err(Error::WalletOperationFailed);
                },
            }
        } else {
            match full(account) {
                Ok(r) => WalletSyncRequest::FullScan(r),
                Err(e) => {
                    assert(call_ensures(*full, (account,), Err::<F, Error>(e)));
                    assert(is_refused::<F, I, _, _>(
                        additional_accounts@[i as int],
                        *state,
                        *full,
                        *incremental,
                    ));
                    return Err(Error::WalletOperationFailed);
                },
            }
        };
        requests.push((account, request));
        i += 1;
    }
    Ok(requests)
}

/// The outcome of a sync: what changed in the wallets, and what failed. What changed is kept also
/// where something else failed.
pub struct WalletSyncOutcome<E> {
    pub events: Vec<E>,
    pub error: Option<Error>,
}

impl<E> WalletSyncOutcome<E> {
    pub fn new(events: Vec<E>, error: Option<Error>) -> (outcome: Self)
        ensures
            outcome == (WalletSyncOutcome { events, error }),
    {
        WalletSyncOutcome { events, error }
    }

    pub fn failed(error: Error) -> (outcome: Self)
        ensures
            outcome.events@ == Seq::<E>::empty(),
            outcome.error == Some(error),
    {
        WalletSyncOutcome { events: Vec::new(), error: Some(error) }
    }

    pub fn result(&self) -> (result: Result<(), Error>)
        ensures
            result == (match self.error {
                Some(e) => Err::<(), Error>(e),
                None => Ok::<(), Error>(()),
            }),
    {
        match self.error {
            Some(e) => Err(e),
            None => Ok(()),
        }
    }
}

/// What became of a sync of an account besides the primary wallet.
pub enum AccountSync<E> {
    /// The chain source gave no update.
    NotFetched(Error),
    /// The wallet refused the update.
    NotApplied(Error),
    /// The account is no longer loaded.
    Unloaded,
    /// The update is in the wallet, since this time where the clock could be read.
    Applied { events: Vec<E>, at: Option<u64> },
}

impl<E> AccountSync<E> {
    pub open spec fn error(self) -> Option<Error> {
        match self {
            AccountSync::NotFetched(e) => Some(e),
            AccountSync::NotApplied(e) => Some(e),
            _ => None,
        }
    }

    pub open spec fn changes(self) -> Seq<E> {
        match self {
            AccountSync::Applied { events, .. } => events@,
            _ => Seq::empty(),
        }
    }
}

/// The first error among the syncs of accounts.
pub open spec fn first_error<E>(syncs: Seq<(OnchainWalletAccount, AccountSync<E>)>) -> Option<Error>
    decreases syncs.len(),
{
    if syncs.len() == 0 {
        None
    } else if first_error(syncs.drop_last()) is Some {
        first_error(syncs.drop_last())
    } else {
        syncs.last().1.error()
    }
}

/// What the syncs of accounts changed, one after another.
pub open spec fn all_changes<E>(syncs: Seq<(OnchainWalletAccount, AccountSync<E>)>) -> Seq<E>
    decreases syncs.len(),
{
    if syncs.len() == 0 {
        Seq::empty()
    } else {
        all_changes(syncs.drop_last()) + syncs.last().1.changes()
    }
}

/// Whether any of the syncs put an update into a wallet.
pub open spec fn any_applied<E>(syncs: Seq<(OnchainWalletAccount, AccountSync<E>)>) -> bool {
    exists|i: int| 0 <= i < syncs.len() && (#[trigger] syncs[i]).1 is Applied
}

/// The times of the last syncs after the syncs of accounts.
pub open spec fn timestamps_after<E>(
    before: Map<OnchainWalletAccount, u64>,
    syncs: Seq<(OnchainWalletAccount, AccountSync<E>)>,
) -> Map<OnchainWalletAccount, u64>
    decreases syncs.len(),
{
    if syncs.len() == 0 {
        before
    } else {
        let front = timestamps_after(before, syncs.drop_last());
        match syncs.last().1 {
            AccountSync::Applied { at: Some(at), .. } => front.insert(syncs.last().0, at),
            _ => front,
        }
    }
}

/// The accounts that count as synced after the syncs of accounts.
pub open spec fn derived_after<E>(
    before: Seq<OnchainWalletAccount>,
    syncs: Seq<(OnchainWalletAccount, AccountSync<E>)>,
) -> Seq<OnchainWalletAccount>
    decreases syncs.len(),
{
    if syncs.len() == 0 {
        before
    } else {
        let front = derived_after(before, syncs.drop_last());
        let (account, sync) = syncs.last();
        if sync is Applied && account.account_index != 0 {
            marked(front, account)
        } else {
            front
        }
    }
}

/// The outcome of the syncs of all accounts besides the primary wallet.
pub struct AdditionalSyncOutcome<E> {
    pub events: Vec<E>,
    pub any_applied: bool,
    pub error: Option<Error>,
}

/// Sums up the syncs of accounts, and notes which of them were synced. A failure of one account
/// leaves the others alone; a result for an account that is no longer loaded is ignored.
pub fn apply_additional_sync_results<E>(
    results: Vec<(OnchainWalletAccount, AccountSync<E>)>,
    state: &mut SyncState,
) -> (outcome: AdditionalSyncOutcome<E>)
    ensures
        outcome.events@ == all_changes(results@),
        outcome.any_applied == any_applied(results@),
        outcome.error == first_error(results@),
        final(state).metrics.wallet_sync_timestamps@ == timestamps_after(
            old(state).metrics.wallet_sync_timestamps@,
            results@,
        ),
        final(state).metrics.same_but_for_accounts(old(state).metrics),
        final(state).synced_derived@ == derived_after(old(state).synced_derived@, results@),
{
    let ghost all = results@;
    let ghost before = *state;
    let mut rest = results;
    let mut events: Vec<E> = Vec::new();
    let mut any: bool = false;
    let mut error: Option<Error> = None;
    let ghost mut i: int = 0;
    assert(all.subrange(0, 0) =~= Seq::empty());
    assert(rest@ =~= all.subrange(0, all.len() as int));
    while rest.len() > 0
        invariant
            0 <= i <= all.len(),
            rest@ == all.subrange(i, all.len() as int),
            events@ == all_changes(all.subrange(0, i)),
            any == any_applied(all.subrange(0, i)),
            error == first_error(all.subrange(0, i)),
            state.metrics.wallet_sync_timestamps@ == timestamps_after(
                before.metrics.wallet_sync_timestamps@,
                all.subrange(0, i),
            ),
            state.metrics.same_but_for_accounts(before.metrics),
            state.synced_derived@ == derived_after(before.synced_derived@, all.subrange(0, i)),
        decreases rest@.len(),
    {
        let (account, sync) = rest.remove(0);
        proof {
            assert((account, sync) == all[i]);
            assert(rest@ =~= all.subrange(i + 1, all.len() as int));
            let now = all.subrange(0, i + 1);
            assert(now.drop_last() =~= all.subrange(0, i));
            assert(now.last() == all[i]);
            assert(any_applied(now) == (any_applied(all.subrange(0, i)) || sync is Applied)) by {
                if any_applied(all.subrange(0, i)) {
                    let j = choose|j: int|
                        0 <= j < i && (#[trigger] all.subrange(0, i)[j]).1 is Applied;
                    assert(now[j].1 is Applied);
                }
                if sync is Applied {
                    assert(now[i].1 is Applied);
                }
                if any_applied(now) {
                    let j = choose|j: int| 0 <= j < now.len() && (#[trigger] now[j]).1 is Applied;
                    if j < i {
                        assert(all.subrange(0, i)[j].1 is Applied);
                    }
                }
            }
            i = i + 1;
        }
        match sync {
            AccountSync::NotFetched(e) => {
                if error.is_none() {
                    error = Some(e);
                }
            },
            AccountSync::NotApplied(e) => {
                if error.is_none() {
                    error = Some(e);
                }
            },
            AccountSync::Unloaded => {},
            AccountSync::Applied { events: new_events, at } => {
                any = true;
                if let Some(ts) = at {
                    state.metrics.set_wallet_sync_timestamp(account, ts);
                }
                if account.account_index != 0 {
                    state.mark_derived_account_synced(account);
                }
                let mut new_events = new_events;
                events.append(&mut new_events);
            },
        }
        assert(all_changes(all.subrange(0, i)) =~= events@);
    }
    assert(all.subrange(0, i) =~= all);
    AdditionalSyncOutcome { events, any_applied: any, error }
}

/// What became of the update of the primary wallet.
pub enum PrimarySync<E> {
    /// There was none.
    NoUpdate,
    /// The wallet refused it.
    NotApplied(Error),
    /// It is in the wallet, since this time where the clock could be read.
    Applied { events: Vec<E>, at: Option<u64> },
}

/// The outcome of the syncs of all wallets.
pub struct AppliedWalletSyncOutcome<E> {
    pub events: Vec<E>,
    pub any_applied: bool,
    pub primary_applied: bool,
    pub error: Option<Error>,
}

/// The first of two errors, where there is one.
pub open spec fn first_of(a: Option<Error>, b: Option<Error>) -> Option<Error> {
    if a is Some {
        a
    } else {
        b
    }
}

/// What the update of the primary wallet changed.
pub open spec fn primary_changes<E>(primary: PrimarySync<E>) -> Seq<E> {
    match primary {
        PrimarySync::Applied { events, .. } => events@,
        _ => Seq::empty(),
    }
}

/// The error of the update of the primary wallet.
pub open spec fn primary_refusal<E>(primary: PrimarySync<E>) -> Option<Error> {
    match primary {
        PrimarySync::NotApplied(e) => Some(e),
        _ => None,
    }
}

/// The time of the last sync of the primary wallet.
pub open spec fn primary_timestamp<E>(before: Option<u64>, primary: PrimarySync<E>) -> Option<u64> {
    match primary {
        PrimarySync::Applied { at, .. } => at,
        _ => before,
    }
}

/// Sums up the syncs of all wallets. An update of the primary wallet stays applied where another
/// wallet fails; the error that is reported is that of the primary wallet first, then that of a
/// task, then that of another wallet.
pub fn apply_wallet_sync_results<E>(
    primary: PrimarySync<E>,
    primary_error: Option<Error>,
    task_error: Option<Error>,
    additional_results: Vec<(OnchainWalletAccount, AccountSync<E>)>,
    state: &mut SyncState,
) -> (outcome: AppliedWalletSyncOutcome<E>)
    ensures
        outcome.events@ == primary_changes(primary) + all_changes(additional_results@),
        outcome.primary_applied == (primary is Applied),
        outcome.any_applied == (primary is Applied || any_applied(additional_results@)),
        outcome.error == first_of(
            first_of(primary_error, primary_refusal(primary)),
            first_of(task_error, first_error(additional_results@)),
        ),
        final(state).metrics.latest_onchain_wallet_sync_timestamp == primary_timestamp(
            old(state).metrics.latest_onchain_wallet_sync_timestamp,
            primary,
        ),
        final(state).metrics.wallet_sync_timestamps@ == timestamps_after(
            old(state).metrics.wallet_sync_timestamps@,
            additional_results@,
        ),
        final(state).metrics.latest_lightning_wallet_sync_timestamp == old(
            state,
        ).metrics.latest_lightning_wallet_sync_timestamp,
        final(state).metrics.latest_fee_rate_cache_update_timestamp == old(
            state,
        ).metrics.latest_fee_rate_cache_update_timestamp,
        final(state).metrics.latest_rgs_snapshot_timestamp == old(
            state,
        ).metrics.latest_rgs_snapshot_timestamp,
        final(state).metrics.latest_channel_monitor_archival_height == old(
            state,
        ).metrics.latest_channel_monitor_archival_height,
        final(state).synced_derived@ == derived_after(
            old(state).synced_derived@,
            additional_results@,
        ),
{
    let mut events: Vec<E> = Vec::new();
    let mut primary_applied: bool = false;
    let mut error = primary_error;
    match primary {
        PrimarySync::NoUpdate => {},
        PrimarySync::NotApplied(e) => {
            if error.is_none() {
                error = Some(e);
            }
        },
        PrimarySync::Applied { events: primary_events, at } => {
            primary_applied = true;
            state.metrics.latest_onchain_wallet_sync_timestamp = at;
            events = primary_events;
        },
    }
    if error.is_none() {
        error = task_error;
    }
    let additional = apply_additional_sync_results(additional_results, state);
    let mut additional_events = additional.events;
    events.append(&mut additional_events);
    if error.is_none() {
        error = additional.error;
    }
    AppliedWalletSyncOutcome {
        events,
        any_applied: primary_applied || additional.any_applied,
        primary_applied,
        error,
    }
}

/// What is left to do when the updates are in the wallets.
pub struct SyncFinish<E> {
    /// What the sync returns.
    pub outcome: WalletSyncOutcome<E>,
    /// Whether what the node remembers has to be written down. That this fails is only logged.
    pub write_metrics: bool,
}

/// Ends a sync. Where any update went into a wallet the payments are brought up to date, which can
/// fail (`payments_updated`), and what the node remembers is written down.
pub fn finish_wallet_sync<E>(
    applied: AppliedWalletSyncOutcome<E>,
    payments_updated: Result<(), Error>,
) -> (finish: SyncFinish<E>)
    ensures
        finish.outcome.events == applied.events,
        finish.write_metrics == applied.any_applied,
        finish.outcome.error == (if applied.any_applied {
            first_of(
                applied.error,
                match payments_updated {
                    Ok(()) => None,
                    Err(e) => Some(e),
                },
            )
        } else {
            applied.error
        }),
{
    let mut error = applied.error;
    if applied.any_applied {
        if let Err(e) = payments_updated {
            if error.is_none() {
                error = Some(e);
            }
        }
    }
    SyncFinish {
        outcome: WalletSyncOutcome::new(applied.events, error),
        write_metrics: applied.any_applied,
    }
}

/// How a task that fetched an update of a wallet ended. The primary wallet has no account here.
pub enum FetchEnd<U> {
    /// The task ran.
    Ran { account: Option<OnchainWalletAccount>, result: Result<U, Error> },
    /// The task was cancelled or panicked.
    Lost,
}

/// The updates that were fetched.
pub struct Fetched<U> {
    pub primary_update: Option<U>,
    pub primary_error: Option<Error>,
    pub additional_results: Vec<(OnchainWalletAccount, Result<U, Error>)>,
    pub task_error: Option<Error>,
}

/// The last update of the primary wallet among the ends of tasks.
pub open spec fn primary_update_of<U>(ends: Seq<FetchEnd<U>>) -> Option<U>
    decreases ends.len(),
{
    if ends.len() == 0 {
        None
    } else {
        match ends.last() {
            FetchEnd::Ran { account: None, result: Ok(update) } => Some(update),
            _ => primary_update_of(ends.drop_last()),
        }
    }
}

/// The last error of the primary wallet among the ends of tasks.
pub open spec fn primary_error_of<U>(ends: Seq<FetchEnd<U>>) -> Option<Error>
    decreases ends.len(),
{
    if ends.len() == 0 {
        None
    } else {
        match ends.last() {
            FetchEnd::Ran { account: None, result: Err(e) } => Some(e),
            _ => primary_error_of(ends.drop_last()),
        }
    }
}

/// The results for the other accounts, in the order in which their tasks ended.
pub open spec fn additional_of<U>(ends: Seq<FetchEnd<U>>) -> Seq<
    (OnchainWalletAccount, Result<U, Error>),
>
    decreases ends.len(),
{
    if ends.len() == 0 {
        Seq::empty()
    } else {
        match ends.last() {
            FetchEnd::Ran { account: Some(account), result } => additional_of(
                ends.drop_last(),
            ).push((account, result)),
            _ => additional_of(ends.drop_last()),
        }
    }
}

/// Sorts the ends of the tasks that fetched updates. A primary wallet of which nothing was heard
/// counts as failed.
pub fn collect_fetched<U>(ends: Vec<FetchEnd<U>>) -> (fetched: Fetched<U>)
    ensures
        fetched.primary_update == primary_update_of(ends@),
        fetched.primary_error == (if primary_update_of(ends@) is None && primary_error_of(
            ends@,
        ) is None {
            Some(Error::WalletOperationFailed)
        } else {
            primary_error_of(ends@)
        }),
        fetched.additional_results@ == additional_of(ends@),
        fetched.task_error == (if exists|i: int|
            0 <= i < ends@.len() && #[trigger] ends@[i] is Lost {
            Some(Error::WalletOperationFailed)
        } else {
            None
        }),
{
    let ghost all = ends@;
    let mut rest = ends;
    let mut primary_update: Option<U> = None;
    let mut primary_error: Option<Error> = None;
    let mut additional_results: Vec<(OnchainWalletAccount, Result<U, Error>)> = Vec::new();
    let mut task_error: Option<Error> = None;
    let ghost mut i: int = 0;
    assert(all.subrange(0, 0) =~= Seq::empty());
    assert(rest@ =~= all.subrange(0, all.len() as int));
    while rest.len() > 0
        invariant
            0 <= i <= all.len(),
            rest@ == all.subrange(i, all.len() as int),
            primary_update == primary_update_of(all.subrange(0, i)),
            primary_error == primary_error_of(all.subrange(0, i)),
            additional_results@ == additional_of(all.subrange(0, i)),
            task_error is Some <==> exists|j: int| 0 <= j < i && #[trigger] all[j] is Lost,
            task_error is Some ==> task_error == Some(Error::WalletOperationFailed),
        decreases rest@.len(),
    {
        let end = rest.remove(0);
        proof {
            assert(end == all[i]);
            assert(rest@ =~= all.subrange(i + 1, all.len() as int));
            assert(all.subrange(0, i + 1).drop_last() =~= all.subrange(0, i));
            assert(all.subrange(0, i + 1).last() == all[i]);
            i = i + 1;
        }
        match end {
            FetchEnd::Lost => {
                task_error = Some(Error::WalletOperationFailed);
            },
            FetchEnd::Ran { account, result } => match account {
                None => match result {
                    Ok(update) => {
                        primary_update = Some(update);
                    },
                    Err(e) => {
                        primary_error = Some(e);
                    },
                },
                Some(account) => {
                    additional_results.push((account, result));
                },
            },
        }
    }
    assert(all.subrange(0, i) =~= all);
    if primary_update.is_none() && primary_error.is_none() {
        primary_error = Some(Error::WalletOperationFailed);
    }
    Fetched { primary_update, primary_error, additional_results, task_error }
}

/// What a sync reports does not depend on how the other wallets fared where the primary one failed.
pub proof fn law_the_primary_error_comes_first<E>(
    primary_error: Option<Error>,
    primary: PrimarySync<E>,
    task_error: Option<Error>,
    results: Seq<(OnchainWalletAccount, AccountSync<E>)>,
)
    requires
        first_of(primary_error, primary_refusal(primary)) is Some,
    ensures
        first_of(
            first_of(primary_error, primary_refusal(primary)),
            first_of(task_error, first_error(results)),
        ) == first_of(primary_error, primary_refusal(primary)),
{
}

/// A sync of accounts reports an error exactly where one of them failed.
pub proof fn law_no_account_fails_in_silence<E>(
    results: Seq<(OnchainWalletAccount, AccountSync<E>)>,
)
    ensures
        first_error(results) is Some <==> exists|i: int|
            0 <= i < results.len() && (#[trigger] results[i]).1.error() is Some,
    decreases results.len(),
{
    if results.len() > 0 {
        let front = results.drop_last();
        law_no_account_fails_in_silence(front);
        if first_error(results) is Some {
            if first_error(front) is Some {
                let i = choose|i: int|
                    0 <= i < front.len() && (#[trigger] front[i]).1.error() is Some;
                assert(results[i].1.error() is Some);
            } else {
                assert(results[results.len() - 1].1.error() is Some);
            }
        }
        if exists|i: int| 0 <= i < results.len() && (#[trigger] results[i]).1.error() is Some {
            let i = choose|i: int|
                0 <= i < results.len() && (#[trigger] results[i]).1.error() is Some;
            if i < front.len() {
                assert(front[i].1.error() is Some);
            }
        }
    }
}

/// An account that an update went into is synced incrementally from then on.
pub proof fn law_a_synced_account_is_synced_incrementally<E>(
    before: SyncState,
    after: SyncState,
    results: Seq<(OnchainWalletAccount, AccountSync<E>)>,
    i: int,
)
    requires
        0 <= i < results.len(),
        results[i].1 matches AccountSync::Applied { at, .. } && at is Some,
        after.metrics.wallet_sync_timestamps@ == timestamps_after(
            before.metrics.wallet_sync_timestamps@,
            results,
        ),
        after.synced_derived@ == derived_after(before.synced_derived@, results),
    ensures
        is_incremental(results[i].0, after),
{
    lemma_applied_accounts_are_known(
        before.metrics.wallet_sync_timestamps@,
        before.synced_derived@,
        results,
        i,
    );
}

proof fn lemma_applied_accounts_are_known<E>(
    times: Map<OnchainWalletAccount, u64>,
    derived: Seq<OnchainWalletAccount>,
    results: Seq<(OnchainWalletAccount, AccountSync<E>)>,
    i: int,
)
    requires
        0 <= i < results.len(),
        results[i].1 matches AccountSync::Applied { at, .. } && at is Some,
    ensures
        timestamps_after(times, results).dom().contains(results[i].0),
        results[i].0.account_index != 0 ==> derived_after(derived, results).contains(results[i].0),
    decreases results.len(),
{
    let front = results.drop_last();
    let (account, sync) = results.last();
    let known = derived_after(derived, front);
    if i < front.len() {
        lemma_applied_accounts_are_known(times, derived, front, i);
        assert(front[i] == results[i]);
        if results[i].0.account_index != 0 {
            let k = choose|k: int| 0 <= k < known.len() && known[k] == results[i].0;
            assert(known.push(account)[k] == results[i].0);
        }
    } else {
        if account.account_index != 0 && !known.contains(account) {
            assert(known.push(account)[known.len() as int] == account);
        }
    }
}

/// Marking an account adds it, once, and keeps all others in their order.
pub proof fn law_accounts_are_marked_once(
    accounts: Seq<OnchainWalletAccount>,
    account: OnchainWalletAccount,
    other: OnchainWalletAccount,
)
    ensures
        marked(accounts, account).contains(account),
        marked(accounts, account).contains(other) <==> accounts.contains(other) || other == account,
        accounts.is_prefix_of(marked(accounts, account)),
        accounts.no_duplicates() ==> marked(accounts, account).no_duplicates(),
{
    let after = marked(accounts, account);
    if !accounts.contains(account) {
        assert(after[accounts.len() as int] == account);
    }
    assert(accounts =~= after.take(accounts.len() as int));
    if accounts.contains(other) {
        let i = choose|i: int| 0 <= i < accounts.len() && accounts[i] == other;
        assert(after[i] == other);
    }
    if after.contains(other) && other != account {
        let i = choose|i: int| 0 <= i < after.len() && after[i] == other;
        assert(accounts[i] == other);
    }
}

/// The first account of a kind of address is synced incrementally once the time of a sync was noted for it,
/// whenever that was; every other account once it was synced since the start.
pub proof fn law_when_a_sync_is_incremental(account: OnchainWalletAccount, state: SyncState)
    ensures
        account.account_index == 0 ==> (is_incremental(account, state)
            <==> state.metrics.wallet_sync_timestamps@.dom().contains(account)),
        account.account_index > 0 ==> (is_incremental(account, state)
            <==> state.synced_derived@.contains(account)),
{
}

/// A request is an incremental one exactly for an account that is synced incrementally, and is the one that
/// the wallet of the account made; and one is refused only where that wallet failed.
pub proof fn law_requests_are_those_of_their_wallets<F, I, MakeFull, MakeIncremental>(
    account: OnchainWalletAccount,
    state: SyncState,
    full: MakeFull,
    incremental: MakeIncremental,
    request: WalletSyncRequest<F, I>,
) where
    MakeFull: Fn(OnchainWalletAccount) -> Result<F, Error>,
    MakeIncremental: Fn(OnchainWalletAccount) -> Result<I, Error>,

    ensures
        is_request_for(account, state, full, incremental, request) ==> {
            &&& request is Incremental <==> is_incremental(account, state)
            &&& request matches WalletSyncRequest::Incremental(r) ==> call_ensures(
                incremental,
                (account,),
                Ok::<I, Error>(r),
            )
            &&& request matches WalletSyncRequest::FullScan(r) ==> call_ensures(
                full,
                (account,),
                Ok::<F, Error>(r),
            )
        },
        is_refused::<F, I, _, _>(account, state, full, incremental) && is_incremental(
            account,
            state,
        ) ==> exists|e: Error| call_ensures(incremental, (account,), Err::<I, Error>(e)),
        is_refused::<F, I, _, _>(account, state, full, incremental) && !is_incremental(
            account,
            state,
        ) ==> exists|e: Error| call_ensures(full, (account,), Err::<F, Error>(e)),
{
}

/// The error that is reported for several accounts is that of the first one that failed, whether its update
/// was not fetched or not applied.
pub proof fn law_the_first_error_is_reported<E>(
    syncs: Seq<(OnchainWalletAccount, AccountSync<E>)>,
    i: int,
    e: Error,
)
    requires
        0 <= i < syncs.len(),
        syncs[i].1 == AccountSync::<E>::NotFetched(e) || syncs[i].1
            == AccountSync::<E>::NotApplied(e),
        forall|j: int|
            0 <= j < i ==> !((#[trigger] syncs[j]).1 is NotFetched) && !(syncs[j].1 is NotApplied),
    ensures
        first_error(syncs) == Some(e),
    decreases syncs.len(),
{
    let front = syncs.drop_last();
    if i < front.len() {
        assert(front[i] == syncs[i]);
        assert forall|j: int| 0 <= j < i implies !((#[trigger] front[j]).1 is NotFetched) && !(
        front[j].1 is NotApplied) by {
            assert(front[j] == syncs[j]);
        }
        law_the_first_error_is_reported(front, i, e);
    } else {
        law_no_account_fails_in_silence(front);
        if first_error(front) is Some {
            let j = choose|j: int|
                0 <= j < front.len() && (#[trigger] front[j]).1.error() is Some;
            assert(front[j] == syncs[j]);
        }
    }
}

/// What an account tells: its error where its update was not fetched or not applied, its changes where it
/// was applied, and nothing where it is not loaded.
pub proof fn law_accounts_tell_their_changes_or_their_error<E>(
    e: Error,
    events: Vec<E>,
    at: Option<u64>,
)
    ensures
        AccountSync::<E>::NotFetched(e).error() == Some(e),
        AccountSync::<E>::NotApplied(e).error() == Some(e),
        AccountSync::<E>::Unloaded.error() is None,
        (AccountSync::Applied { events, at }).error() is None,
        (AccountSync::Applied { events, at }).changes() == events@,
        AccountSync::<E>::NotFetched(e).changes().len() == 0,
        AccountSync::<E>::NotApplied(e).changes().len() == 0,
        AccountSync::<E>::Unloaded.changes().len() == 0,
{
}

/// The changes of several accounts are those of each of them, in order.
pub proof fn law_all_changes_are_told<E>(
    syncs: Seq<(OnchainWalletAccount, AccountSync<E>)>,
    sync: (OnchainWalletAccount, AccountSync<E>),
)
    ensures
        sync.1 matches AccountSync::Applied { events, .. } ==> all_changes(syncs.push(sync))
            == all_changes(syncs) + events@,
        !(sync.1 is Applied) ==> all_changes(syncs.push(sync)) == all_changes(syncs),
        all_changes(Seq::<(OnchainWalletAccount, AccountSync<E>)>::empty()).len() == 0,
        any_applied(syncs.push(sync)) <==> any_applied(syncs) || sync.1 is Applied,
        !any_applied(Seq::<(OnchainWalletAccount, AccountSync<E>)>::empty()),
{
    let all = syncs.push(sync);
    assert(all.drop_last() =~= syncs);
    assert(all_changes(syncs) + Seq::<E>::empty() =~= all_changes(syncs));
    if any_applied(syncs) {
        let i = choose|i: int| 0 <= i < syncs.len() && (#[trigger] syncs[i]).1 is Applied;
        assert(all[i] == syncs[i]);
    }
    if sync.1 is Applied {
        assert(all[syncs.len() as int].1 is Applied);
    }
    if any_applied(all) {
        let i = choose|i: int| 0 <= i < all.len() && (#[trigger] all[i]).1 is Applied;
        if i < syncs.len() {
            assert(syncs[i] == all[i]);
        }
    }
}

/// The time of a sync is noted for an account exactly if its update was applied at a known time, and nothing
/// is changed for other accounts.
pub proof fn law_times_are_noted_for_what_was_applied<E>(
    before: Map<OnchainWalletAccount, u64>,
    syncs: Seq<(OnchainWalletAccount, AccountSync<E>)>,
    account: OnchainWalletAccount,
    sync: AccountSync<E>,
    other: OnchainWalletAccount,
)
    ensures
        ({
            let earlier = timestamps_after(before, syncs);
            let after = timestamps_after(before, syncs.push((account, sync)));
            &&& sync matches AccountSync::Applied { at: Some(at), .. }
                ==> after.dom().contains(account) && after[account] == at
            &&& !(sync is Applied) ==> after == earlier
            &&& sync matches AccountSync::Applied { at: None, .. } ==> after == earlier
            &&& other != account ==> (after.dom().contains(other) <==> earlier.dom().contains(
                other,
            )) && (earlier.dom().contains(other) ==> after[other] == earlier[other])
        }),
        timestamps_after(before, Seq::<(OnchainWalletAccount, AccountSync<E>)>::empty()) == before,
{
    assert(syncs.push((account, sync)).drop_last() =~= syncs);
}

/// An account counts as synced since the start exactly if it did before, or its update was applied and it
/// is not the first one of a kind of address.
pub proof fn law_applied_accounts_are_marked<E>(
    before: Seq<OnchainWalletAccount>,
    syncs: Seq<(OnchainWalletAccount, AccountSync<E>)>,
    account: OnchainWalletAccount,
)
    ensures
        derived_after(before, syncs).contains(account) <==> before.contains(account) || (
        account.account_index != 0 && exists|i: int|
            0 <= i < syncs.len() && (#[trigger] syncs[i]).0 == account && syncs[i].1 is Applied),
        before.no_duplicates() ==> derived_after(before, syncs).no_duplicates(),
    decreases syncs.len(),
{
    if syncs.len() > 0 {
        let front = syncs.drop_last();
        let (last, sync) = syncs.last();
        law_applied_accounts_are_marked(before, front, account);
        law_accounts_are_marked_once(derived_after(before, front), last, account);
        assert(syncs[syncs.len() - 1] == (last, sync));
        if exists|i: int|
            0 <= i < front.len() && (#[trigger] front[i]).0 == account && front[i].1 is Applied {
            let i = choose|i: int|
                0 <= i < front.len() && (#[trigger] front[i]).0 == account && front[i].1 is Applied;
            assert(syncs[i] == front[i]);
        }
        if exists|i: int|
            0 <= i < syncs.len() && (#[trigger] syncs[i]).0 == account && syncs[i].1 is Applied {
            let i = choose|i: int|
                0 <= i < syncs.len() && (#[trigger] syncs[i]).0 == account && syncs[i].1 is Applied;
            if i < front.len() {
                assert(front[i] == syncs[i]);
            }
        }
    }
}

/// What the primary wallet tells: its changes and the time where its update was applied, and otherwise none,
/// the error where it was refused and the time of before.
pub proof fn law_the_primary_wallet_tells_its_changes<E>(
    events: Vec<E>,
    at: Option<u64>,
    before: Option<u64>,
    e: Error,
)
    ensures
        primary_changes(PrimarySync::Applied { events, at }) == events@,
        primary_changes(PrimarySync::<E>::NotApplied(e)).len() == 0,
        primary_changes(PrimarySync::<E>::NoUpdate).len() == 0,
        primary_refusal(PrimarySync::Applied { events, at }) is None,
        primary_refusal(PrimarySync::<E>::NotApplied(e)) == Some(e),
        primary_refusal(PrimarySync::<E>::NoUpdate) is None,
        primary_timestamp(before, PrimarySync::Applied { events, at }) == at,
        primary_timestamp(before, PrimarySync::<E>::NotApplied(e)) == before,
        primary_timestamp(before, PrimarySync::<E>::NoUpdate) == before,
        first_of(Some(e), None) == Some(e),
        first_of(None, Some(e)) == Some(e),
        first_of(None, None) is None,
{
}

/// Of two errors the first is reported.
pub proof fn law_the_first_of_two_errors_is_reported(a: Error, b: Option<Error>)
    ensures
        first_of(Some(a), b) == Some(a),
        first_of(None, b) == b,
{
}

/// Each task that ran is told apart by its account: without one it is that of the primary wallet, whose
/// update or error is kept, and with one its result is kept for the account. Lost tasks give nothing.
pub proof fn law_fetched_updates_go_to_their_wallets<U>(
    ends: Seq<FetchEnd<U>>,
    account: OnchainWalletAccount,
    update: U,
    e: Error,
    result: Result<U, Error>,
)
    ensures
        ({
            let primary = FetchEnd::Ran { account: None, result: Ok::<U, Error>(update) };
            let failed = FetchEnd::Ran { account: None, result: Err::<U, Error>(e) };
            let other = FetchEnd::Ran { account: Some(account), result };
            let lost = FetchEnd::<U>::Lost;
            &&& primary_update_of(ends.push(primary)) == Some(update)
            &&& primary_error_of(ends.push(primary)) == primary_error_of(ends)
            &&& additional_of(ends.push(primary)) == additional_of(ends)
            &&& primary_update_of(ends.push(failed)) == primary_update_of(ends)
            &&& primary_error_of(ends.push(failed)) == Some(e)
            &&& additional_of(ends.push(failed)) == additional_of(ends)
            &&& primary_update_of(ends.push(other)) == primary_update_of(ends)
            &&& primary_error_of(ends.push(other)) == primary_error_of(ends)
            &&& additional_of(ends.push(other)) == additional_of(ends).push((account, result))
            &&& primary_update_of(ends.push(lost)) == primary_update_of(ends)
            &&& primary_error_of(ends.push(lost)) == primary_error_of(ends)
            &&& additional_of(ends.push(lost)) == additional_of(ends)
            &&& primary_update_of(Seq::<FetchEnd<U>>::empty()) is None
            &&& primary_error_of(Seq::<FetchEnd<U>>::empty()) is None
            &&& additional_of(Seq::<FetchEnd<U>>::empty()).len() == 0
        }),
{
    assert forall|end: FetchEnd<U>| (#[trigger] ends.push(end)).drop_last() == ends by {
        assert(ends.push(end).drop_last() =~= ends);
    }
}

/// Whether an account is synced incrementally goes by what is known of its earlier syncs.
pub proof fn law_incremental_syncs_are_chosen(
    account: OnchainWalletAccount,
    state: SyncState,
    incremental: bool,
    marked_state: &mut SyncState,
    synced: bool,
)
    requires
        call_ensures(should_use_incremental_sync, (account, &state), incremental),
        call_ensures(SyncState::mark_derived_account_synced, (marked_state, account), ()),
        call_ensures(
            SyncState::has_synced_derived_account,
            (&*final(marked_state), account),
            synced,
        ),
    ensures
        account.account_index == 0 ==> (incremental
            <==> state.metrics.wallet_sync_timestamps@.dom().contains(account)),
        account.account_index != 0 ==> (incremental <==> state.synced_derived@.contains(account)),
        synced,
        final(marked_state).metrics == old(marked_state).metrics,
{
    law_accounts_are_marked_once(old(marked_state).synced_derived@, account, account);
}

/// The outcome of a sync: the changes of the primary wallet come before those of all others; the error of the
/// primary wallet comes before any other; and the time of the primary wallet is noted exactly if its update
/// was applied.
pub proof fn law_the_primary_wallet_comes_first<E>(
    events: Vec<E>,
    at: Option<u64>,
    e: Error,
    task_error: Option<Error>,
    results: Vec<(OnchainWalletAccount, AccountSync<E>)>,
    state: &mut SyncState,
    applied: AppliedWalletSyncOutcome<E>,
    others: Vec<(OnchainWalletAccount, AccountSync<E>)>,
    kept: &mut SyncState,
    failed: AppliedWalletSyncOutcome<E>,
)
    requires
        call_ensures(
            apply_wallet_sync_results::<E>,
            (PrimarySync::Applied { events, at }, None, task_error, results, state),
            applied,
        ),
        call_ensures(
            apply_wallet_sync_results::<E>,
            (PrimarySync::<E>::NoUpdate, Some(e), task_error, others, kept),
            failed,
        ),
    ensures
        events@.is_prefix_of(applied.events@),
        applied.primary_applied,
        applied.any_applied,
        final(state).metrics.latest_onchain_wallet_sync_timestamp == at,
        final(state).metrics.latest_lightning_wallet_sync_timestamp == old(
            state
        ).metrics.latest_lightning_wallet_sync_timestamp,
        applied.error is None <==> task_error is None && first_error(results@) is None,
        !failed.primary_applied,
        failed.error == Some(e),
        failed.any_applied <==> any_applied(others@),
        final(kept).metrics.latest_onchain_wallet_sync_timestamp == old(
            kept
        ).metrics.latest_onchain_wallet_sync_timestamp,
{
    assert(events@ =~= applied.events@.take(events@.len() as int));
}

/// The end of a sync: the metrics are written exactly if anything was applied, and an error of updating the
/// payments is reported only where nothing failed before.
pub proof fn law_metrics_are_written_for_what_was_applied<E>(
    applied: AppliedWalletSyncOutcome<E>,
    updated: Result<(), Error>,
    finish: SyncFinish<E>,
)
    requires
        call_ensures(finish_wallet_sync::<E>, (applied, updated), finish),
    ensures
        finish.write_metrics <==> applied.any_applied,
        finish.outcome.events == applied.events,
        applied.error is Some ==> finish.outcome.error == applied.error,
        applied.error is None && applied.any_applied ==> (updated matches Err(e)
            ==> finish.outcome.error == Some(e)),
        applied.error is None && (updated is Ok || !applied.any_applied) ==> finish.outcome.error
            is None,
{
}

/// A fetch without an update of the primary wallet has an error for it, and lost tasks are an error.
pub proof fn law_nothing_fetched_is_an_error<U>(ends: Vec<FetchEnd<U>>, fetched: Fetched<U>, i: int)
    requires
        call_ensures(collect_fetched::<U>, (ends,), fetched),
    ensures
        fetched.primary_update is None ==> fetched.primary_error is Some,
        0 <= i < ends@.len() && ends@[i] is Lost ==> fetched.task_error == Some(
            Error::WalletOperationFailed,
        ),
        (forall|k: int| 0 <= k < ends@.len() ==> !(#[trigger] ends@[k] is Lost))
            ==> fetched.task_error is None,
        fetched.additional_results@ == additional_of(ends@),
        fetched.primary_update == primary_update_of(ends@),
{
}

} // verus!
