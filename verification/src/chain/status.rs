//! One sync at a time: whoever asks for a sync while one is running waits for its result.
use crate::error::Error;
use vstd::prelude::*;

verus! {

/// Whether a sync is running, and who waits for it.
pub enum WalletSyncStatus {
    Completed,
    InProgress { subscribers: Vec<u64> },
}

/// What to do when a sync is asked for.
#[derive(Clone, Copy, Debug, PartialEq, Eq, Structural)]
pub enum SyncRole {
    /// Nobody is syncing: run the sync.
    Run,
    /// A sync is running: wait for its result.
    Wait,
}

impl WalletSyncStatus {
    /// Who waits for the sync that is running.
    pub open spec fn waiting(self) -> Seq<u64> {
        match self {
            WalletSyncStatus::Completed => Seq::empty(),
            WalletSyncStatus::InProgress { subscribers } => subscribers@,
        }
    }

    /// Registers a caller for a sync. The first one runs it, the others wait.
    pub fn register_or_subscribe_pending_sync(&mut self, caller: u64) -> (role: SyncRole)
        ensures
            *final(self) is InProgress,
            role == (if *old(self) is Completed {
                SyncRole::Run
            } else {
                SyncRole::Wait
            }),
            final(self).waiting() == (if *old(self) is Completed {
                Seq::empty()
            } else {
                old(self).waiting().push(caller)
            }),
    {
        let mut waiting: Vec<u64> = Vec::new();
        let mut role = SyncRole::Run;
        match self {
            WalletSyncStatus::Completed => {},
            WalletSyncStatus::InProgress { subscribers } => {
                std::mem::swap(&mut waiting, subscribers);
                waiting.push(caller);
                role = SyncRole::Wait;
            },
        }
        *self = WalletSyncStatus::InProgress { subscribers: waiting };
        role
    }

    /// Ends the sync that is running, and says who is told its result.
    pub fn propagate_result_to_subscribers(&mut self) -> (told: Vec<u64>)
        ensures
            *final(self) is Completed,
            told@ == old(self).waiting(),
    {
        let mut told: Vec<u64> = Vec::new();
        match self {
            WalletSyncStatus::Completed => {},
            WalletSyncStatus::InProgress { subscribers } => {
                std::mem::swap(&mut told, subscribers);
            },
        }
        *self = WalletSyncStatus::Completed;
        told
    }
}

/// A sequence of callers that registers with a status, one after another.
pub open spec fn registered(status: Option<Seq<u64>>, callers: Seq<u64>) -> Option<Seq<u64>>
    decreases callers.len(),
{
    if callers.len() == 0 {
        status
    } else {
        match registered(status, callers.drop_last()) {
            None => Some(Seq::empty()),
            Some(waiting) => Some(waiting.push(callers.last())),
        }
    }
}

/// Of the callers that ask for a sync before it ends, the first one runs it and all the others are
/// told its result, in the order in which they asked.
pub proof fn law_all_but_the_first_caller_are_told(callers: Seq<u64>)
    requires
        callers.len() > 0,
    ensures
        registered(None, callers) == Some(callers.subrange(1, callers.len() as int)),
    decreases callers.len(),
{
    if callers.len() > 1 {
        law_all_but_the_first_caller_are_told(callers.drop_last());
        assert(callers.subrange(1, callers.len() as int) =~= callers.drop_last().subrange(
            1,
            callers.len() - 1,
        ).push(callers.last()));
    } else {
        assert(registered(None, callers.drop_last()) is None);
        assert(callers.subrange(1, 1) =~= Seq::empty());
    }
}

/// What a caller that waited for a sync gets to know of it.
#[derive(Clone, Copy, Debug)]
pub enum Notice {
    /// The sync ended with this result.
    Result(Result<(), Error>),
    /// The notice was lost.
    Lost,
}

/// What a caller that waited returns. A lost notice counts as a failure.
pub fn after_waiting(notice: Notice, lost: Error) -> (result: Result<(), Error>)
    ensures
        result == (match notice {
            Notice::Result(result) => result,
            Notice::Lost => Err(lost),
        }),
{
    match notice {
        Notice::Result(result) => result,
        Notice::Lost => Err(lost),
    }
}

/// How a task that was given a limited time ended.
#[derive(Clone, Copy, Debug)]
pub enum TaskEnd<T> {
    /// The time was over first.
    TimedOut,
    /// The task was cancelled or panicked.
    NotJoined,
    /// The task ran and failed.
    Failed,
    /// The task ran and gave a value.
    Finished(T),
}

/// The result of a task that was given a limited time.
pub fn task_result<T>(end: TaskEnd<T>, timed_out: Error, failed: Error) -> (result: Result<
    T,
    Error,
>)
    ensures
        result == (match end {
            TaskEnd::TimedOut => Err::<T, Error>(timed_out),
            TaskEnd::NotJoined => Err::<T, Error>(failed),
            TaskEnd::Failed => Err::<T, Error>(failed),
            TaskEnd::Finished(value) => Ok::<T, Error>(value),
        }),
{
    match end {
        TaskEnd::TimedOut => Err(timed_out),
        TaskEnd::NotJoined => Err(failed),
        TaskEnd::Failed => Err(failed),
        TaskEnd::Finished(value) => Ok(value),
    }
}

/// Those wait that subscribed to a sync in progress, and nobody waits for one that is completed.
pub proof fn law_subscribers_wait(subscribers: Vec<u64>)
    ensures
        (WalletSyncStatus::InProgress { subscribers }).waiting() == subscribers@,
        WalletSyncStatus::Completed.waiting().len() == 0,
{
}

/// A further caller waits behind those that wait already, and the first one runs the sync and waits for
/// nobody.
pub proof fn law_callers_wait_in_order(status: Option<Seq<u64>>, callers: Seq<u64>, caller: u64)
    ensures
        registered(status, callers) is None ==> registered(status, callers.push(caller)) == Some(
            Seq::<u64>::empty(),
        ),
        registered(status, callers) matches Some(waiting) ==> registered(
            status,
            callers.push(caller),
        ) == Some(waiting.push(caller)),
        registered(status, Seq::empty()) == status,
{
    assert(callers.push(caller).drop_last() =~= callers);
}

/// A caller that waited gets the result of the sync, and the error for a lost notice where it was lost. A
/// task gives its value where it finished, and otherwise tells whether the time was over.
pub proof fn law_results_reach_those_who_wait(
    own: Result<(), Error>,
    lost: Error,
    told: Result<(), Error>,
    untold: Result<(), Error>,
    value: u64,
    timed_out: Error,
    failed: Error,
    finished: Result<u64, Error>,
    late: Result<u64, Error>,
    broken: Result<u64, Error>,
    cancelled: Result<u64, Error>,
)
    requires
        call_ensures(after_waiting, (Notice::Result(own), lost), told),
        call_ensures(after_waiting, (Notice::Lost, lost), untold),
        call_ensures(task_result::<u64>, (TaskEnd::Finished(value), timed_out, failed), finished),
        call_ensures(task_result::<u64>, (TaskEnd::<u64>::TimedOut, timed_out, failed), late),
        call_ensures(task_result::<u64>, (TaskEnd::<u64>::Failed, timed_out, failed), broken),
        call_ensures(task_result::<u64>, (TaskEnd::<u64>::NotJoined, timed_out, failed), cancelled),
    ensures
        told == own,
        untold == Err::<(), Error>(lost),
        finished == Ok::<u64, Error>(value),
        late == Err::<u64, Error>(timed_out),
        broken == Err::<u64, Error>(failed),
        cancelled == Err::<u64, Error>(failed),
{
}

/// The first caller runs a sync, all further ones wait, and each of those is told when it ends.
pub proof fn law_callers_subscribe_to_a_sync(
    status: &mut WalletSyncStatus,
    caller: u64,
    role: SyncRole,
    ended: &mut WalletSyncStatus,
    told: Vec<u64>,
)
    requires
        call_ensures(
            WalletSyncStatus::register_or_subscribe_pending_sync,
            (status, caller),
            role,
        ),
        call_ensures(WalletSyncStatus::propagate_result_to_subscribers, (ended,), told),
    ensures
        role == SyncRole::Run <==> *old(status) is Completed,
        *final(status) is InProgress,
        *old(status) is Completed ==> final(status).waiting().len() == 0,
        *old(status) is InProgress ==> final(status).waiting() == old(status).waiting().push(
            caller,
        ),
        *final(ended) is Completed,
        told@ == old(ended).waiting(),
{
}

} // verus!
