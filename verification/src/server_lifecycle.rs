//! The life cycle of servers: starting, registering protocol processors, routing
//! connections between them, waiting for and commanding the shutdown.

use vstd::prelude::*;

verus! {

/// Why a server could not be started.
#[derive(PartialEq, Eq, Debug, Clone, Copy)]
pub enum StartError {
    /// The connection routing was already started: the server was started more than once.
    StartedMoreThanOnce,
    /// No protocol processor was registered, so no connection could be served.
    NoProcessors,
}

/// Why a shutdown could not be commanded.
#[derive(PartialEq, Eq, Debug, Clone, Copy)]
pub enum ShutdownError {
    /// The server was never started.
    NotStarted,
    /// The shutdown signal could not reach the network loop.
    SignalNotDelivered,
}

/// Why waiting for the shutdown is not possible.
#[derive(PartialEq, Eq, Debug, Clone, Copy)]
pub enum ShutdownWaitError {
    /// The server was not started, or the shutdown is already awaited elsewhere.
    NothingToAwait,
}

/// The time, in milliseconds, given to a shutdown whose signal was lost (its sender was dropped).
pub const PROBLEMATIC_SHUTDOWN_TIMEOUT_MILLIS: u32 = 5000u32;

/// The time given to the shutdown: the timeout carried by the shutdown signal, or
/// [PROBLEMATIC_SHUTDOWN_TIMEOUT_MILLIS] when the signal was lost.
pub fn shutdown_timeout_millis(signaled_timeout_millis: Option<u32>) -> (timeout_millis: u32)
    ensures
        timeout_millis == match signaled_timeout_millis {
            Some(millis) => millis,
            None => PROBLEMATIC_SHUTDOWN_TIMEOUT_MILLIS,
        },
{
    match signaled_timeout_millis {
        Some(millis) => millis,
        None => PROBLEMATIC_SHUTDOWN_TIMEOUT_MILLIS,
    }
}

/// Where a connection goes when a server serves a single protocol: fresh connections (that
/// carry no state yet) go to the protocol's processor; connections returned by it are dropped.
pub fn route_single_protocol<StateType>(last_state: &Option<StateType>) -> (route_to_processor: bool)
    ensures
        route_to_processor == (last_state is None),
{
    last_state.is_none()
}

/// The abstract state of a composite server.
pub struct CompositeServerState {
    /// A connection provider (the listening socket) is installed.
    pub started: bool,
    /// The connection routing task took the source of returned connections.
    pub routing_started: bool,
    /// How many processors were registered (each will signal its shutdown).
    pub registered: nat,
    /// The shutdown waiter was taken: it awaits the processors registered until then.
    pub waiter_taken: bool,
}

/// The state of a composite server that was just created.
pub open spec fn composite_initial() -> CompositeServerState {
    CompositeServerState { started: false, routing_started: false, registered: 0, waiter_taken: false }
}

/// Binding the listening socket: the server counts as started, and the connection routing
/// starts unless it already had (then starting fails); a server to which no processor was
/// ever registered fails to start and stays as it was.
pub open spec fn composite_on_listener_bound(s: CompositeServerState) -> (Result<(), StartError>, CompositeServerState) {
    if s.routing_started {
        (Err(StartError::StartedMoreThanOnce), CompositeServerState { started: true, ..s })
    } else if s.registered == 0 {
        (Err(StartError::NoProcessors), s)
    } else {
        (Ok(()), CompositeServerState { started: true, routing_started: true, ..s })
    }
}

/// Taking the shutdown waiter: the first taker gets the number of processors to await.
pub open spec fn composite_take_shutdown_waiter(s: CompositeServerState) -> (Result<nat, ShutdownWaitError>, CompositeServerState) {
    (
        if s.waiter_taken {
            Err(ShutdownWaitError::NothingToAwait)
        } else {
            Ok(s.registered)
        },
        CompositeServerState { waiter_taken: true, ..s },
    )
}

/// Commanding the shutdown: only a started server can be shut down.
pub open spec fn composite_shutdown(s: CompositeServerState) -> Result<(), ShutdownError> {
    if s.started {
        Ok(())
    } else {
        Err(ShutdownError::NotStarted)
    }
}

/// The life cycle of a composite server, which serves several protocols over the same listening
/// socket, routing each connection to one protocol processor.
pub struct CompositeServerLifecycle {
    started: bool,
    routing_started: bool,
    registered: usize,
    waiter_taken: bool,
}

impl View for CompositeServerLifecycle {
    type V = CompositeServerState;

    closed spec fn view(&self) -> CompositeServerState {
        CompositeServerState {
            started: self.started,
            routing_started: self.routing_started,
            registered: self.registered as nat,
            waiter_taken: self.waiter_taken,
        }
    }
}

impl CompositeServerLifecycle {
    /// A server that is not started and has no processor yet.
    pub fn new() -> (lifecycle: Self)
        ensures
            lifecycle@ == composite_initial(),
    {
        CompositeServerLifecycle { started: false, routing_started: false, registered: 0, waiter_taken: false }
    }

    /// Whether another protocol processor may still be registered: not once the shutdown
    /// waiter was taken (it would not await it).
    pub fn can_register_processor(&self) -> (can: bool)
        ensures
            can == (!self@.waiter_taken && self@.registered < usize::MAX),
    {
        !self.waiter_taken && self.registered < usize::MAX
    }

    /// Registers a new protocol processor, whose shutdown the waiter will await.
    pub fn register_processor(&mut self)
        requires
            !old(self)@.waiter_taken,
            old(self)@.registered < usize::MAX,
        ensures
            final(self)@ == (CompositeServerState { registered: old(self)@.registered + 1, ..old(self)@ }),
    {
        self.registered = self.registered + 1;
    }

    /// Records that the listening socket is bound.
    pub fn on_listener_bound(&mut self) -> (started: Result<(), StartError>)
        ensures
            (started, final(self)@) == composite_on_listener_bound(old(self)@),
    {
        if self.routing_started {
            self.started = true;
            Err(StartError::StartedMoreThanOnce)
        } else if self.registered == 0 {
            Err(StartError::NoProcessors)
        } else {
            self.started = true;
            self.routing_started = true;
            Ok(())
        }
    }

    /// Takes what the shutdown waiter awaits: the number of processors that will signal their
    /// shutdown.
    pub fn take_shutdown_waiter(&mut self) -> (awaited: Result<usize, ShutdownWaitError>)
        ensures
            ({
                let (r, s) = composite_take_shutdown_waiter(old(self)@);
                &&& final(self)@ == s
                &&& match r {
                    Ok(n) => awaited == Ok::<usize, ShutdownWaitError>(n as usize),
                    Err(e) => awaited == Err::<usize, ShutdownWaitError>(e),
                }
            }),
    {
        if self.waiter_taken {
            Err(ShutdownWaitError::NothingToAwait)
        } else {
            self.waiter_taken = true;
            Ok(self.registered)
        }
    }

    /// Whether a shutdown may be commanded.
    pub fn shutdown(&self) -> (outcome: Result<(), ShutdownError>)
        ensures
            outcome == composite_shutdown(self@),
    {
        if self.started {
            Ok(())
        } else {
            Err(ShutdownError::NotStarted)
        }
    }
}

/// A composite server starts once, and only with a processor: whatever else happened before
/// (the shutdown waiter taken or not), binding the listener of a server to which no processor
/// was registered fails and changes nothing; with one, the first binding starts it, a second
/// one fails, and the shutdown of a started server is accepted.
pub proof fn lemma_composite_starts_once(s: CompositeServerState)
    ensures
        s.registered == 0 && !s.routing_started ==> composite_on_listener_bound(s) == (
            Err::<(), StartError>(StartError::NoProcessors),
            s,
        ),
        s.registered > 0 && !s.routing_started ==> {
            &&& composite_on_listener_bound(s).0 == Ok::<(), StartError>(())
            &&& composite_on_listener_bound(composite_on_listener_bound(s).1).0
                == Err::<(), StartError>(StartError::StartedMoreThanOnce)
            &&& composite_shutdown(composite_on_listener_bound(s).1) == Ok::<(), ShutdownError>(())
        },
        composite_shutdown(composite_initial()) == Err::<(), ShutdownError>(ShutdownError::NotStarted),
        composite_take_shutdown_waiter(s).1.registered == s.registered,
{
}

/// The shutdown can be awaited once: a second waiter gets nothing to await, and the first one
/// awaits every processor registered before it.
pub proof fn lemma_composite_shutdown_awaited_once(s: CompositeServerState)
    ensures
        composite_take_shutdown_waiter(composite_take_shutdown_waiter(s).1).0
            == Err::<nat, ShutdownWaitError>(ShutdownWaitError::NothingToAwait),
        !s.waiter_taken ==> composite_take_shutdown_waiter(s).0 == Ok::<nat, ShutdownWaitError>(s.registered),
{
}

/// Taking the shutdown waiter touches nothing but the waiter mark: a started server stays
/// started (and can still be shut down), its routing and its registered processors are kept.
pub proof fn lemma_taking_waiter_keeps_the_server(s: CompositeServerState)
    ensures
        composite_take_shutdown_waiter(s).1 == (CompositeServerState {
            started: s.started,
            routing_started: s.routing_started,
            registered: s.registered,
            waiter_taken: true,
        }),
        composite_shutdown(composite_take_shutdown_waiter(s).1) == composite_shutdown(s),
        s.registered > 0 && !s.routing_started ==> composite_shutdown(
            composite_take_shutdown_waiter(composite_on_listener_bound(s).1).1,
        ) == Ok::<(), ShutdownError>(()),
{
}

/// A shutdown is accepted exactly when the server was started, whatever else happened
/// (processors registered or not, waiter taken or not).
pub proof fn lemma_shutdown_only_when_started(s: CompositeServerState)
    ensures
        composite_shutdown(s) is Ok <==> s.started,
        !s.started ==> composite_shutdown(s) == Err::<(), ShutdownError>(ShutdownError::NotStarted),
        composite_shutdown(CompositeServerState { started: false, ..s }) == Err::<(), ShutdownError>(ShutdownError::NotStarted),
{
}

/// The abstract state of a single-protocol socket server.
pub struct SocketServerState {
    /// The signal that commands the network loop to shut down is armed.
    pub shutdown_signaler: bool,
    /// The notification of a completed shutdown can still be awaited.
    pub shutdown_receiver: bool,
}

/// Taking the shutdown waiter: only the first taker after spawning gets the notification.
pub open spec fn socket_take_shutdown_waiter(s: SocketServerState) -> (Result<(), ShutdownWaitError>, SocketServerState) {
    (
        if s.shutdown_receiver {
            Ok(())
        } else {
            Err(ShutdownWaitError::NothingToAwait)
        },
        SocketServerState { shutdown_receiver: false, ..s },
    )
}

/// Commanding the shutdown: the signal is sent if it is armed and it reaches the network loop
/// (`delivered` tells whether it does).
pub open spec fn socket_shutdown(s: SocketServerState, delivered: bool) -> Result<(), ShutdownError> {
    if !s.shutdown_signaler {
        Err(ShutdownError::NotStarted)
    } else if !delivered {
        Err(ShutdownError::SignalNotDelivered)
    } else {
        Ok(())
    }
}

/// The life cycle of a single-protocol socket server: spawning a processor arms the shutdown
/// signal and the "shutdown is complete" notification.
pub struct SocketServerLifecycle {
    shutdown_signaler: bool,
    shutdown_receiver: bool,
}

impl View for SocketServerLifecycle {
    type V = SocketServerState;

    closed spec fn view(&self) -> SocketServerState {
        SocketServerState { shutdown_signaler: self.shutdown_signaler, shutdown_receiver: self.shutdown_receiver }
    }
}

impl SocketServerLifecycle {
    /// A server whose processor was not spawned yet.
    pub fn new() -> (lifecycle: Self)
        ensures
            lifecycle@ == (SocketServerState { shutdown_signaler: false, shutdown_receiver: false }),
    {
        SocketServerLifecycle { shutdown_signaler: false, shutdown_receiver: false }
    }

    /// Records that a processor was spawned, arming both shutdown channels.
    pub fn on_processor_spawned(&mut self)
        ensures
            final(self)@ == (SocketServerState { shutdown_signaler: true, shutdown_receiver: true }),
    {
        self.shutdown_signaler = true;
        self.shutdown_receiver = true;
    }

    /// Takes the notification of a completed shutdown, for the shutdown waiter.
    pub fn take_shutdown_waiter(&mut self) -> (awaited: Result<(), ShutdownWaitError>)
        ensures
            (awaited, final(self)@) == socket_take_shutdown_waiter(old(self)@),
    {
        if self.shutdown_receiver {
            self.shutdown_receiver = false;
            Ok(())
        } else {
            Err(ShutdownWaitError::NothingToAwait)
        }
    }

    /// Whether the shutdown signal is to be sent: only after a processor was spawned.
    pub fn is_shutdown_armed(&self) -> (armed: bool)
        ensures
            armed == self@.shutdown_signaler,
    {
        self.shutdown_signaler
    }

    /// The outcome of a shutdown command, where `delivered` tells whether the armed signal
    /// reached the network loop.
    pub fn shutdown(&self, delivered: bool) -> (outcome: Result<(), ShutdownError>)
        ensures
            outcome == socket_shutdown(self@, delivered),
    {
        if !self.shutdown_signaler {
            Err(ShutdownError::NotStarted)
        } else if !delivered {
            Err(ShutdownError::SignalNotDelivered)
        } else {
            Ok(())
        }
    }
}

/// After a processor was spawned, the shutdown can be awaited once, and commanding it succeeds
/// when the signal is delivered; before, both are refused.
pub proof fn lemma_socket_server_shutdown(delivered: bool)
    ensures
        ({
            let spawned = SocketServerState { shutdown_signaler: true, shutdown_receiver: true };
            &&& socket_take_shutdown_waiter(spawned).0 == Ok::<(), ShutdownWaitError>(())
            &&& socket_take_shutdown_waiter(socket_take_shutdown_waiter(spawned).1).0
                == Err::<(), ShutdownWaitError>(ShutdownWaitError::NothingToAwait)
            &&& (socket_shutdown(spawned, delivered) is Ok <==> delivered)
        }),
        ({
            let fresh = SocketServerState { shutdown_signaler: false, shutdown_receiver: false };
            &&& socket_take_shutdown_waiter(fresh).0 == Err::<(), ShutdownWaitError>(ShutdownWaitError::NothingToAwait)
            &&& socket_shutdown(fresh, delivered) == Err::<(), ShutdownError>(ShutdownError::NotStarted)
        }),
{
}

/// What the shutdown-tracking events callback does with an event.
#[derive(PartialEq, Eq, Debug, Clone, Copy)]
pub enum ShutdownTracking {
    /// Hand the event to the user callback.
    Forward,
    /// Hand the shutdown event to the user callback (bounded by the shutdown timeout), then
    /// signal that the shutdown is complete.
    ForwardThenSignalCompletion,
    /// Hand the shutdown event to the user callback (bounded by the shutdown timeout); the
    /// completion was already signaled by an earlier shutdown, so it is not signaled again.
    ForwardAfterCompletion,
}

/// One step of the shutdown tracking: the action for an event and whether the completion is
/// still pending afterwards.
pub open spec fn tracking_step(completion_pending: bool, is_shutdown: bool) -> (ShutdownTracking, bool) {
    if !is_shutdown {
        (ShutdownTracking::Forward, completion_pending)
    } else if completion_pending {
        (ShutdownTracking::ForwardThenSignalCompletion, false)
    } else {
        (ShutdownTracking::ForwardAfterCompletion, false)
    }
}

/// How many times the completion is signaled over a sequence of events (`true` for each
/// shutdown event).
pub open spec fn completion_signals(completion_pending: bool, events: Seq<bool>) -> nat
    decreases events.len(),
{
    if events.len() == 0 {
        0
    } else {
        let (action, pending) = tracking_step(completion_pending, events[0]);
        (if action == ShutdownTracking::ForwardThenSignalCompletion { 1nat } else { 0nat })
            + completion_signals(pending, events.drop_first())
    }
}

/// Whatever the events, the completion of the shutdown is signaled exactly once if some event
/// is a shutdown, and never otherwise.
pub proof fn lemma_completion_signaled_once(events: Seq<bool>)
    ensures
        completion_signals(true, events) == (if events.contains(true) { 1nat } else { 0nat }),
        completion_signals(false, events) == 0,
    decreases events.len(),
{
    if events.len() > 0 {
        lemma_completion_signaled_once(events.drop_first());
        if events[0] {
            assert(events.contains(true));
        } else {
            assert(events.contains(true) <==> events.drop_first().contains(true)) by {
                if events.contains(true) {
                    let i = choose|i: int| 0 <= i < events.len() && events[i] == true;
                    assert(events.drop_first()[i - 1] == true);
                }
                if events.drop_first().contains(true) {
                    let j = choose|j: int| 0 <= j < events.drop_first().len() && events.drop_first()[j] == true;
                    assert(events[j + 1] == true);
                }
            }
        }
    }
}

/// Wraps the user's events callback so that the completion of a shutdown is signaled once.
pub struct ShutdownTracker {
    completion_pending: bool,
}

impl ShutdownTracker {
    /// The completion of the shutdown was not signaled yet.
    pub closed spec fn is_completion_pending(&self) -> bool {
        self.completion_pending
    }

    /// A tracker that will signal the completion of the first shutdown.
    pub fn new() -> (tracker: Self)
        ensures
            tracker.is_completion_pending(),
    {
        ShutdownTracker { completion_pending: true }
    }

    /// Decides what to do with an event; `is_shutdown` tells whether it is the shutdown event.
    pub fn on_event(&mut self, is_shutdown: bool) -> (tracking: ShutdownTracking)
        ensures
            (tracking, final(self).is_completion_pending()) == tracking_step(old(self).is_completion_pending(), is_shutdown),
    {
        if !is_shutdown {
            ShutdownTracking::Forward
        } else if self.completion_pending {
            self.completion_pending = false;
            ShutdownTracking::ForwardThenSignalCompletion
        } else {
            ShutdownTracking::ForwardAfterCompletion
        }
    }
}

} // verus!
