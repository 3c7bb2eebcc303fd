//! Connecting to peers: one attempt at a time for each of them.
use crate::config::SocketAddress;
use crate::error::Error;
use crate::types::PublicKey;
use crate::vec_map::VecMap;
use vstd::prelude::*;

verus! {

/// The callers that still wait.
pub open spec fn still_waiting(callers: Seq<u64>, gone: Seq<u64>) -> Seq<u64>
    decreases callers.len(),
{
    if callers.len() == 0 {
        Seq::empty()
    } else {
        let front = still_waiting(callers.drop_last(), gone);
        if gone.contains(callers.last()) {
            front
        } else {
            front.push(callers.last())
        }
    }
}

fn contains_caller(callers: &Vec<u64>, caller: u64) -> (found: bool)
    ensures
        found == callers@.contains(caller),
{
    let mut i: usize = 0;
    while i < callers.len()
        invariant
            i <= callers@.len(),
            forall|j: int| 0 <= j < i ==> callers@[j] != caller,
        decreases callers@.len() - i,
    {
        if callers[i] == caller {
            return true;
        }
        i += 1;
    }
    false
}

fn drop_gone(callers: &Vec<u64>, gone: &Vec<u64>) -> (left: Vec<u64>)
    ensures
        left@ == still_waiting(callers@, gone@),
{
    let mut left: Vec<u64> = Vec::new();
    let mut i: usize = 0;
    assert(callers@.subrange(0, 0) =~= Seq::empty());
    while i < callers.len()
        invariant
            i <= callers@.len(),
            left@ == still_waiting(callers@.subrange(0, i as int), gone@),
        decreases callers@.len() - i,
    {
        let caller: u64 = callers[i];
        assert(callers@.subrange(0, i + 1).drop_last() =~= callers@.subrange(0, i as int));
        if !contains_caller(gone, caller) {
            left.push(caller);
        }
        i += 1;
    }
    assert(callers@.subrange(0, i as int) =~= callers@);
    left
}

/// Who is told what comes of an attempt.
pub struct Notices {
    pub callers: Vec<u64>,
    pub result: Result<(), Error>,
}

/// The attempts under way, each with the callers that wait for it.
pub struct PendingConnections {
    pending: VecMap<PublicKey, Vec<u64>>,
}

impl PendingConnections {
    /// The attempts under way.
    pub closed spec fn attempts(self) -> Map<PublicKey, Vec<u64>> {
        self.pending@
    }

    /// The callers that wait for a peer.
    pub open spec fn waiting(self, node_id: PublicKey) -> Seq<u64> {
        if self.attempts().dom().contains(node_id) {
            self.attempts()[node_id]@
        } else {
            Seq::empty()
        }
    }

    /// Whether only what concerns a peer differs from before.
    pub open spec fn same_but_for(self, before: Self, node_id: PublicKey) -> bool {
        self.attempts().remove(node_id) == before.attempts().remove(node_id)
    }

    /// Nothing is under way.
    pub fn new() -> (pending: Self)
        ensures
            pending.attempts() == Map::<PublicKey, Vec<u64>>::empty(),
    {
        PendingConnections { pending: VecMap::new() }
    }

    /// Whether nothing is under way.
    pub fn is_empty(&self) -> (empty: bool)
        ensures
            empty == (self.attempts().len() == 0),
    {
        self.pending.len() == 0
    }

    /// Registers a caller that wants to connect to a peer. Where an attempt is under way it waits for
    /// that one; otherwise it makes an attempt itself. Callers that do not wait any more are forgotten.
    ///
    /// Says whether the caller waits.
    pub fn register_or_subscribe_pending_connection(
        &mut self,
        node_id: PublicKey,
        caller: u64,
        gone: &Vec<u64>,
    ) -> (waits: bool)
        ensures
            waits == old(self).attempts().dom().contains(node_id),
            final(self).attempts().dom().contains(node_id),
            final(self).waiting(node_id) == (if waits {
                still_waiting(old(self).waiting(node_id), gone@).push(caller)
            } else {
                Seq::empty()
            }),
            final(self).same_but_for(*old(self), node_id),
    {
        let ghost before = self.pending@;
        let found = self.pending.remove(&node_id);
        match found {
            Some(callers) => {
                let mut left = drop_gone(&callers, gone);
                left.push(caller);
                self.pending.insert(node_id, left);
                assert(self.attempts().remove(node_id) =~= before.remove(node_id));
                true
            },
            None => {
                self.pending.insert(node_id, Vec::new());
                assert(self.attempts().remove(node_id) =~= before.remove(node_id));
                assert(self.waiting(node_id) =~= Seq::empty());
                false
            },
        }
    }

    /// Ends the attempt for a peer, and says who is told its result.
    pub fn propagate_result_to_subscribers(
        &mut self,
        node_id: PublicKey,
        res: Result<(), Error>,
    ) -> (notices: Notices)
        ensures
            final(self).attempts() == old(self).attempts().remove(node_id),
            notices.callers@ == old(self).waiting(node_id),
            notices.result == res,
    {
        let callers: Vec<u64> = match self.pending.remove(&node_id) {
            Some(callers) => callers,
            None => Vec::new(),
        };
        Notices { callers, result: res }
    }

    /// Ends the attempt for a peer that is given up before it has a result: whoever waits is told that
    /// it failed.
    pub fn abandon(&mut self, node_id: PublicKey) -> (notices: Notices)
        ensures
            final(self).attempts() == old(self).attempts().remove(node_id),
            notices.callers@ == old(self).waiting(node_id),
            notices.result == Err::<(), Error>(Error::ConnectionFailed),
    {
        self.propagate_result_to_subscribers(node_id, Err(Error::ConnectionFailed))
    }
}

/// Looks after an attempt while it is made. Until it is disarmed, the attempt counts as given up when
/// the guard goes.
#[derive(Debug)]
pub struct PendingConnectionGuard {
    pub node_id: PublicKey,
    pub active: bool,
}

impl PendingConnectionGuard {
    pub fn new(node_id: PublicKey) -> (guard: Self)
        ensures
            guard == (PendingConnectionGuard { node_id, active: true }),
    {
        PendingConnectionGuard { node_id, active: true }
    }

    pub fn disarm(&mut self)
        ensures
            *final(self) == (PendingConnectionGuard { active: false, ..*old(self) }),
    {
        self.active = false;
    }

    /// What happens when the guard goes.
    pub fn release(self, pending_connections: &mut PendingConnections) -> (notices: Option<Notices>)
        ensures
            match notices {
                Some(notices) => {
                    &&& self.active
                    &&& final(pending_connections).attempts() == old(
                        pending_connections,
                    ).attempts().remove(self.node_id)
                    &&& notices.callers@ == old(pending_connections).waiting(self.node_id)
                    &&& notices.result == Err::<(), Error>(Error::ConnectionFailed)
                },
                None => !self.active && *final(pending_connections) == *old(pending_connections),
            },
    {
        if !self.active {
            return None;
        }
        Some(pending_connections.abandon(self.node_id))
    }
}

/// The attempts under way after some callers registered for a peer, one after another, and none of them
/// left: `None` where there is none, otherwise the callers that wait.
pub open spec fn waiting_after(callers: Seq<u64>) -> Option<Seq<u64>>
    decreases callers.len(),
{
    if callers.len() == 0 {
        None
    } else {
        match waiting_after(callers.drop_last()) {
            None => Some(Seq::empty()),
            Some(waiting) => Some(
                still_waiting(waiting, Seq::empty()).push(callers.last()),
            ),
        }
    }
}

proof fn lemma_nobody_gone(callers: Seq<u64>)
    ensures
        still_waiting(callers, Seq::empty()) == callers,
    decreases callers.len(),
{
    if callers.len() > 0 {
        lemma_nobody_gone(callers.drop_last());
        assert(callers.drop_last().push(callers.last()) =~= callers);
    } else {
        assert(still_waiting(callers, Seq::empty()) =~= callers);
    }
}

/// Of the callers that want to connect to a peer before an attempt ends, the first one makes it and all
/// the others are told what comes of it.
pub proof fn law_one_attempt_serves_all_callers(callers: Seq<u64>)
    requires
        callers.len() > 0,
    ensures
        waiting_after(callers) == Some(callers.subrange(1, callers.len() as int)),
    decreases callers.len(),
{
    if callers.len() > 1 {
        let front = callers.drop_last();
        law_one_attempt_serves_all_callers(front);
        lemma_nobody_gone(front.subrange(1, front.len() as int));
        assert(callers.subrange(1, callers.len() as int) =~= front.subrange(
            1,
            front.len() as int,
        ).push(callers.last()));
    } else {
        assert(waiting_after(callers.drop_last()) is None);
        assert(callers.subrange(1, 1) =~= Seq::empty());
    }
}

/// What is done to connect to a peer.
#[derive(Clone, Copy, Debug, PartialEq, Eq, Structural)]
pub enum ConnectPlan {
    /// Nothing: it is connected.
    Return,
    /// An attempt is made, or waited for.
    Attempt,
}

/// What is done to connect to a peer that may be connected already.
pub fn connect_peer_if_necessary(connected: bool) -> (plan: ConnectPlan)
    ensures
        plan == (if connected {
            ConnectPlan::Return
        } else {
            ConnectPlan::Attempt
        }),
{
    if connected {
        ConnectPlan::Return
    } else {
        ConnectPlan::Attempt
    }
}

/// Whose name is looked up to connect to an address.
#[derive(Clone, Copy, Debug, PartialEq, Eq, Structural)]
pub enum ConnectTarget {
    /// The address itself.
    Direct,
    /// The proxy of the onion network.
    TorProxy,
}

/// Whose name is looked up to connect to an address. Onion addresses need a proxy, and the old ones are
/// not supported.
pub fn connect_target(addr: &SocketAddress, tor_configured: bool) -> (target: Result<
    ConnectTarget,
    Error,
>)
    ensures
        target == (match *addr {
            SocketAddress::OnionV2(_) => Err::<ConnectTarget, Error>(Error::InvalidSocketAddress),
            SocketAddress::OnionV3 { .. } => if tor_configured {
                Ok::<ConnectTarget, Error>(ConnectTarget::TorProxy)
            } else {
                Err::<ConnectTarget, Error>(Error::InvalidSocketAddress)
            },
            _ => Ok::<ConnectTarget, Error>(ConnectTarget::Direct),
        }),
{
    match addr {
        SocketAddress::OnionV2(_) => Err(Error::InvalidSocketAddress),
        SocketAddress::OnionV3 { .. } => {
            if tor_configured {
                Ok(ConnectTarget::TorProxy)
            } else {
                Err(Error::InvalidSocketAddress)
            }
        },
        _ => Ok(ConnectTarget::Direct),
    }
}

/// What is done next to connect.
#[derive(Clone, Copy, Debug, PartialEq, Eq, Structural)]
pub enum ConnectStep {
    /// Try the address at this position.
    Try(usize),
    Connected,
    Failed(Error),
}

/// The first step once the name is looked up. `None` stands for a lookup that failed; one that gives no
/// address is no better.
pub fn first_connect_step(resolved: Option<usize>) -> (step: ConnectStep)
    ensures
        step == (match resolved {
            Some(n) if n > 0 => ConnectStep::Try(0),
            _ => ConnectStep::Failed(Error::InvalidSocketAddress),
        }),
{
    match resolved {
        Some(n) => {
            if n > 0 {
                ConnectStep::Try(0)
            } else {
                ConnectStep::Failed(Error::InvalidSocketAddress)
            }
        },
        None => ConnectStep::Failed(Error::InvalidSocketAddress),
    }
}

/// The step after an address was tried: the addresses are tried in order until one of them works.
pub fn after_connect_step(position: usize, resolved: usize, result: Result<(), Error>) -> (step:
    ConnectStep)
    requires
        position < resolved,
    ensures
        step == (match result {
            Ok(()) => ConnectStep::Connected,
            Err(e) => if position + 1 < resolved {
                ConnectStep::Try((position + 1) as usize)
            } else {
                ConnectStep::Failed(e)
            },
        }),
{
    match result {
        Ok(()) => ConnectStep::Connected,
        Err(e) => {
            if position + 1 < resolved {
                ConnectStep::Try(position + 1)
            } else {
                ConnectStep::Failed(e)
            }
        },
    }
}

/// The step after the addresses of a list were tried with some results, as far as it takes.
pub open spec fn connect_run(results: Seq<Result<(), Error>>, from: int) -> ConnectStep
    decreases results.len() - from,
{
    if from < 0 || from >= results.len() {
        ConnectStep::Failed(Error::ConnectionFailed)
    } else {
        match results[from] {
            Ok(()) => ConnectStep::Connected,
            Err(e) => if from + 1 < results.len() {
                connect_run(results, from + 1)
            } else {
                ConnectStep::Failed(e)
            },
        }
    }
}

/// A peer is connected where one of its addresses works, whichever it is.
pub proof fn law_any_address_will_do(results: Seq<Result<(), Error>>, from: int)
    requires
        0 <= from < results.len(),
    ensures
        connect_run(results, from) == ConnectStep::Connected <==> exists|i: int|
            from <= i < results.len() && (#[trigger] results[i]) is Ok,
    decreases results.len() - from,
{
    if results[from] is Err && from + 1 < results.len() {
        law_any_address_will_do(results, from + 1);
    }
}

/// What happens while a connection is waited for.
#[derive(Clone, Copy, Debug, PartialEq, Eq, Structural)]
pub enum ConnectionEvent {
    /// It could not be made.
    NotMade,
    /// It was closed.
    Closed,
    /// A moment passed; the peer may have been welcomed by now.
    Waited { welcomed: bool },
}

/// What comes of a connection that is waited for. `None` says to go on waiting.
pub fn await_connection(event: ConnectionEvent) -> (result: Option<Result<(), Error>>)
    ensures
        result == (match event {
            ConnectionEvent::NotMade => Some(Err::<(), Error>(Error::ConnectionFailed)),
            ConnectionEvent::Closed => Some(Err::<(), Error>(Error::ConnectionFailed)),
            ConnectionEvent::Waited { welcomed } => if welcomed {
                Some(Ok::<(), Error>(()))
            } else {
                None
            },
        }),
{
    match event {
        ConnectionEvent::NotMade => Some(Err(Error::ConnectionFailed)),
        ConnectionEvent::Closed => Some(Err(Error::ConnectionFailed)),
        ConnectionEvent::Waited { welcomed } => {
            if welcomed {
                Some(Ok(()))
            } else {
                None
            }
        },
    }
}

/// Those still wait that waited and are not gone, in their order.
pub proof fn law_who_is_not_gone_still_waits(callers: Seq<u64>, gone: Seq<u64>)
    ensures
        still_waiting(callers, gone) == callers.filter(|caller: u64| !gone.contains(caller)),
    decreases callers.len(),
{
    reveal(Seq::filter);
    if callers.len() > 0 {
        law_who_is_not_gone_still_waits(callers.drop_last(), gone);
    }
}

/// Those wait for a peer that subscribed to the attempt to connect to it, and nobody where there is none.
/// What is done for one peer leaves the attempts to connect to all others.
pub proof fn law_attempts_are_kept_for_each_peer(
    after: PendingConnections,
    before: PendingConnections,
    node_id: PublicKey,
    other: PublicKey,
)
    ensures
        before.attempts().dom().contains(node_id) ==> before.waiting(node_id)
            == before.attempts()[node_id]@,
        !before.attempts().dom().contains(node_id) ==> before.waiting(node_id).len() == 0,
        after.same_but_for(before, node_id) && other != node_id ==> after.waiting(other)
            == before.waiting(other) && (after.attempts().dom().contains(other)
            <==> before.attempts().dom().contains(other)),
{
    if after.same_but_for(before, node_id) && other != node_id {
        let (a, b) = (after.attempts().remove(node_id), before.attempts().remove(node_id));
        assert(a.dom().contains(other) <==> b.dom().contains(other));
        assert(after.attempts().dom().contains(other) <==> a.dom().contains(other));
        assert(before.attempts().dom().contains(other) <==> b.dom().contains(other));
        if a.dom().contains(other) {
            assert(a[other] == b[other]);
        }
    }
}

/// Where no address can be connected to, the error is that of the last one.
pub proof fn law_the_last_error_is_returned(results: Seq<Result<(), Error>>, from: int)
    requires
        0 <= from < results.len(),
        forall|i: int| from <= i < results.len() ==> (#[trigger] results[i]) is Err,
    ensures
        results.last() matches Err(e) && connect_run(results, from) == ConnectStep::Failed(e),
    decreases results.len() - from,
{
    if from + 1 < results.len() {
        law_the_last_error_is_returned(results, from + 1);
    }
}

/// Which way a peer is connected to: through the proxy for an onion address, where there is one; not at all
/// for an onion address of the old kind; and directly for all others.
pub proof fn law_onion_addresses_need_the_proxy(
    addr: SocketAddress,
    tor_configured: bool,
    target: Result<ConnectTarget, Error>,
)
    requires
        call_ensures(connect_target, (&addr, tor_configured), target),
    ensures
        addr is OnionV2 ==> target == Err::<ConnectTarget, Error>(Error::InvalidSocketAddress),
        addr is OnionV3 && tor_configured ==> target == Ok::<ConnectTarget, Error>(
            ConnectTarget::TorProxy,
        ),
        addr is OnionV3 && !tor_configured ==> target == Err::<ConnectTarget, Error>(
            Error::InvalidSocketAddress,
        ),
        !(addr is OnionV2) && !(addr is OnionV3) ==> target == Ok::<ConnectTarget, Error>(
            ConnectTarget::Direct,
        ),
{
}

/// Addresses are tried one after the other, from the first to the last, until one can be connected to.
pub proof fn law_addresses_are_tried_in_order(
    resolved: usize,
    position: usize,
    e: Error,
    first: ConnectStep,
    unresolved: ConnectStep,
    connected: ConnectStep,
    failed: ConnectStep,
)
    requires
        position < resolved,
        call_ensures(first_connect_step, (Some(resolved),), first),
        call_ensures(first_connect_step, (None,), unresolved),
        call_ensures(after_connect_step, (position, resolved, Ok(())), connected),
        call_ensures(after_connect_step, (position, resolved, Err(e)), failed),
    ensures
        first == ConnectStep::Try(0),
        unresolved == ConnectStep::Failed(Error::InvalidSocketAddress),
        connected == ConnectStep::Connected,
        position + 1 < resolved ==> failed == ConnectStep::Try((position + 1) as usize),
        position + 1 == resolved ==> failed == ConnectStep::Failed(e),
{
}

/// A connection is made once the peer was welcomed, and fails where it could not be made or was closed. A
/// peer that is connected is left alone.
pub proof fn law_connections_are_made_with_a_welcome(
    not_made: Option<Result<(), Error>>,
    closed: Option<Result<(), Error>>,
    welcomed: bool,
    waited: Option<Result<(), Error>>,
    connected: bool,
    plan: ConnectPlan,
)
    requires
        call_ensures(await_connection, (ConnectionEvent::NotMade,), not_made),
        call_ensures(await_connection, (ConnectionEvent::Closed,), closed),
        call_ensures(await_connection, (ConnectionEvent::Waited { welcomed },), waited),
        call_ensures(connect_peer_if_necessary, (connected,), plan),
    ensures
        not_made == Some(Err::<(), Error>(Error::ConnectionFailed)),
        closed == Some(Err::<(), Error>(Error::ConnectionFailed)),
        welcomed ==> waited == Some(Ok::<(), Error>(())),
        !welcomed ==> waited is None,
        plan is Return <==> connected,
{
}

/// The first caller attempts to connect, all further ones wait for it, and each that still waits is told how
/// it ended. What is done for one peer leaves all others.
pub proof fn law_callers_wait_for_an_attempt(
    pending: &mut PendingConnections,
    node_id: PublicKey,
    caller: u64,
    gone: Vec<u64>,
    waits: bool,
    ended: &mut PendingConnections,
    res: Result<(), Error>,
    notices: Notices,
    other: PublicKey,
)
    requires
        other != node_id,
        call_ensures(
            PendingConnections::register_or_subscribe_pending_connection,
            (pending, node_id, caller, &gone),
            waits,
        ),
        call_ensures(
            PendingConnections::propagate_result_to_subscribers,
            (ended, node_id, res),
            notices,
        ),
    ensures
        waits <==> old(pending).attempts().dom().contains(node_id),
        waits ==> final(pending).waiting(node_id).last() == caller,
        !waits ==> final(pending).waiting(node_id).len() == 0,
        final(pending).attempts().dom().contains(node_id),
        final(pending).waiting(other) == old(pending).waiting(other),
        notices.callers@ == old(ended).waiting(node_id),
        notices.result == res,
        !final(ended).attempts().dom().contains(node_id),
        final(ended).waiting(other) == old(ended).waiting(other),
{
    law_attempts_are_kept_for_each_peer(*final(pending), *old(pending), node_id, other);
}

/// An attempt that is given up tells those who wait that it failed, unless its guard was disarmed.
pub proof fn law_guards_give_up_attempts(
    guard: PendingConnectionGuard,
    pending: &mut PendingConnections,
    notices: Option<Notices>,
    disarmed: &mut PendingConnectionGuard,
)
    requires
        call_ensures(PendingConnectionGuard::release, (guard, pending), notices),
        call_ensures(PendingConnectionGuard::disarm, (disarmed,), ()),
    ensures
        notices is Some <==> guard.active,
        notices matches Some(n) ==> n.callers@ == old(pending).waiting(guard.node_id) && n.result
            == Err::<(), Error>(Error::ConnectionFailed)
            && !final(pending).attempts().dom().contains(guard.node_id),
        !guard.active ==> *final(pending) == *old(pending),
        !final(disarmed).active,
        final(disarmed).node_id == old(disarmed).node_id,
{
}

} // verus!
