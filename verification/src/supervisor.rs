//! The accept loop, as a state machine without I/O.
//!
//! The driver binds the listening socket once and then accepts
//! connections for ever. It reports every outcome to the [`Supervisor`]
//! and does what it is told. The supervisor keeps nothing about the
//! connections it has handed out.

use vstd::prelude::*;
use crate::message::BindError;

verus! {

/// The address the server listens on when none is given.
pub const DEFAULT_ADDRESS: &'static str = "127.0.0.1:8080";

/// The largest payload, in bytes, that a session accepts by default.
pub const DEFAULT_MAX_MESSAGE_SIZE: usize = 67_108_864;

/// The address to bind: the one given, or the default.
pub fn bind_address(given: Option<String>) -> (address: String)
    ensures
        address@ == (match given {
            Some(text) => text@,
            None => DEFAULT_ADDRESS@,
        }),
{
    match given {
        Some(text) => text,
        None => DEFAULT_ADDRESS.to_owned(),
    }
}

/// Where the accept loop stands.
#[derive(Debug, Clone, Copy, PartialEq, Eq, Structural)]
pub enum Supervisor {
    /// The listening socket is not bound yet.
    Binding,
    /// The socket is bound; connections are being accepted.
    Listening,
    /// Binding failed. The server cannot run.
    Stopped(BindError),
}

/// The outcome of an operation the driver performed for the supervisor.
#[derive(Debug, Clone, Copy, PartialEq, Eq, Structural)]
pub enum ListenerEvent {
    /// The listening socket is bound.
    Bound,
    /// The listening socket could not be bound.
    BindFailed(BindError),
    /// A connection was accepted.
    Accepted,
    /// Accepting a connection failed.
    AcceptFailed,
}

/// What the driver has to do next.
#[derive(Debug, Clone, Copy, PartialEq, Eq, Structural)]
pub enum ListenerAction {
    /// Bind the listening socket.
    Bind,
    /// Accept the next connection.
    Accept,
    /// Hand the accepted connection to a new session that runs on its
    /// own, and accept the next connection without waiting for it.
    Spawn,
    /// Give up and report the error.
    Exit(BindError),
}

impl ListenerAction {
    /// Whether the action keeps the accept loop going.
    pub open spec fn keeps_accepting(self) -> bool {
        self is Accept || self is Spawn
    }
}

/// The transition of the supervisor on one event.
///
/// Binding happens once: a failure stops the server, and later reports
/// about binding change nothing. A failed accept is passed over and the
/// loop goes on. Reports about connections before the socket is bound
/// are passed over too.
pub open spec fn supervise(supervisor: Supervisor, event: ListenerEvent) -> (
    Supervisor,
    ListenerAction,
) {
    match supervisor {
        Supervisor::Binding => match event {
            ListenerEvent::Bound => (Supervisor::Listening, ListenerAction::Accept),
            ListenerEvent::BindFailed(error) => (
                Supervisor::Stopped(error),
                ListenerAction::Exit(error),
            ),
            _ => (Supervisor::Binding, ListenerAction::Bind),
        },
        Supervisor::Listening => match event {
            ListenerEvent::Accepted => (Supervisor::Listening, ListenerAction::Spawn),
            _ => (Supervisor::Listening, ListenerAction::Accept),
        },
        Supervisor::Stopped(error) => (supervisor, ListenerAction::Exit(error)),
    }
}

/// The supervisor after `events`, and its answers, one per event.
pub open spec fn supervise_all(supervisor: Supervisor, events: Seq<ListenerEvent>) -> (
    Supervisor,
    Seq<ListenerAction>,
)
    decreases events.len(),
{
    if events.len() == 0 {
        (supervisor, Seq::empty())
    } else {
        let (before, actions) = supervise_all(supervisor, events.drop_last());
        let (after, action) = supervise(before, events.last());
        (after, actions.push(action))
    }
}

impl Supervisor {
    /// A supervisor whose socket is still to be bound.
    pub fn new() -> (supervisor: Supervisor)
        ensures
            supervisor == Supervisor::Binding,
    {
        Supervisor::Binding
    }

    /// Takes the outcome of the last operation and says what to do next.
    pub fn step(&mut self, event: ListenerEvent) -> (action: ListenerAction)
        ensures
            (*final(self), action) == supervise(*old(self), event),
    {
        match *self {
            Supervisor::Binding => match event {
                ListenerEvent::Bound => {
                    *self = Supervisor::Listening;
                    ListenerAction::Accept
                },
                ListenerEvent::BindFailed(error) => {
                    *self = Supervisor::Stopped(error);
                    ListenerAction::Exit(error)
                },
                _ => ListenerAction::Bind,
            },
            Supervisor::Listening => match event {
                ListenerEvent::Accepted => ListenerAction::Spawn,
                _ => ListenerAction::Accept,
            },
            Supervisor::Stopped(error) => ListenerAction::Exit(error),
        }
    }

    /// How serving has gone so far: the bind error if binding failed,
    /// nothing to report otherwise.
    pub fn outcome(&self) -> (result: Result<(), BindError>)
        ensures
            result == (match *self {
                Supervisor::Stopped(error) => Err::<(), BindError>(error),
                _ => Ok(()),
            }),
    {
        match *self {
            Supervisor::Stopped(error) => Err(error),
            _ => Ok(()),
        }
    }
}

/// Once the socket is bound the server never stops accepting: whatever
/// is reported, a failed accept included, the supervisor keeps listening,
/// and each answer is to accept again, after spawning a session if a
/// connection came in.
pub proof fn lemma_listening_never_stops(events: Seq<ListenerEvent>)
    ensures
        supervise_all(Supervisor::Listening, events).0 == Supervisor::Listening,
        supervise_all(Supervisor::Listening, events).1.len() == events.len(),
        forall|i: int|
            0 <= i < events.len() ==> {
                let action = #[trigger] supervise_all(Supervisor::Listening, events).1[i];
                &&& action.keeps_accepting()
                &&& action is Spawn <==> events[i] is Accepted
            },
    decreases events.len(),
{
    if events.len() > 0 {
        lemma_listening_never_stops(events.drop_last());
    }
}

/// A failed bind is final: the supervisor stops with the error and
/// answers everything that follows with the same exit.
pub proof fn lemma_bind_failure_is_final(error: BindError, later: Seq<ListenerEvent>)
    ensures
        supervise(Supervisor::Binding, ListenerEvent::BindFailed(error)) == (
            Supervisor::Stopped(error),
            ListenerAction::Exit(error),
        ),
        supervise_all(Supervisor::Stopped(error), later).0 == Supervisor::Stopped(error),
        supervise_all(Supervisor::Stopped(error), later).1.len() == later.len(),
        forall|i: int|
            0 <= i < later.len() ==> #[trigger] supervise_all(Supervisor::Stopped(error), later).1[i]
                == ListenerAction::Exit(error),
    decreases later.len(),
{
    if later.len() > 0 {
        lemma_bind_failure_is_final(error, later.drop_last());
    }
}

} // verus!
