//! The life of one connection, as a state machine without I/O.
//!
//! A [`Session`] never touches a socket. Its driver performs the I/O and
//! reports every outcome as an [`Event`]; the session answers with the
//! [`Action`] to perform next. A driver starts by running the upgrade
//! handshake on the freshly accepted connection, and stops once it has been
//! told to [`Action::Release`] it.

use vstd::prelude::*;
use crate::message::{HandshakeError, Message, MessageView, TransportError};
use crate::transform::{transform, transformed};

verus! {

/// The lifecycle states of a session.
#[derive(Debug, Clone, Copy, PartialEq, Eq, Structural)]
pub enum State {
    /// The upgrade handshake is in progress.
    Handshaking,
    /// Messages are being received and echoed.
    Open,
    /// The peer asked to close; the acknowledgement is on its way.
    Closing,
    /// The session ended in an orderly way.
    Closed,
    /// The session ended because of an error.
    Failed,
}

/// Why a session failed.
#[derive(Debug, Clone, Copy, PartialEq, Eq, Structural)]
pub enum Failure {
    /// The upgrade handshake failed.
    Handshake(HandshakeError),
    /// Waiting for a message failed, or the message broke the size limit.
    Receive(TransportError),
    /// Writing a reply failed.
    Send(TransportError),
    /// The driver reported an outcome of something it was not asked to do.
    OutOfTurn,
}

/// The exact position of a session: its state, and within `Open` whether
/// it waits for a message or for the outcome of a reply.
#[derive(Debug, Clone, Copy, PartialEq, Eq, Structural)]
pub enum Phase {
    /// Waiting for the outcome of the handshake.
    Handshaking,
    /// Open, waiting for the next message.
    Receiving,
    /// Open, waiting for the outcome of the reply in flight.
    Replying,
    /// Waiting for the outcome of the close acknowledgement.
    Closing,
    /// Ended in an orderly way.
    Closed,
    /// Ended because of an error.
    Failed(Failure),
}

impl Phase {
    /// The lifecycle state the phase belongs to.
    pub open spec fn state(self) -> State {
        match self {
            Phase::Handshaking => State::Handshaking,
            Phase::Receiving => State::Open,
            Phase::Replying => State::Open,
            Phase::Closing => State::Closing,
            Phase::Closed => State::Closed,
            Phase::Failed(_) => State::Failed,
        }
    }

    /// Whether the session is over: nothing is processed from here on.
    pub open spec fn is_terminal(self) -> bool {
        self is Closed || self is Failed
    }
}

/// The outcome of an operation the driver performed for the session.
#[derive(Debug, PartialEq, Eq)]
pub enum Event {
    /// The handshake succeeded: the connection now carries messages.
    Upgraded,
    /// The handshake failed.
    UpgradeFailed(HandshakeError),
    /// A complete message arrived.
    Received(Message),
    /// The stream of messages ended: the peer is gone.
    PeerClosed,
    /// Waiting for a message failed.
    ReceiveFailed(TransportError),
    /// The message handed out for sending was written in full.
    Sent,
    /// The message handed out for sending could not be written.
    SendFailed(TransportError),
}

/// The mathematical value of an [`Event`].
pub enum EventView {
    Upgraded,
    UpgradeFailed(HandshakeError),
    Received(MessageView),
    PeerClosed,
    ReceiveFailed(TransportError),
    Sent,
    SendFailed(TransportError),
}

impl View for Event {
    type V = EventView;

    open spec fn view(&self) -> EventView {
        match self {
            Event::Upgraded => EventView::Upgraded,
            Event::UpgradeFailed(error) => EventView::UpgradeFailed(*error),
            Event::Received(message) => EventView::Received(message@),
            Event::PeerClosed => EventView::PeerClosed,
            Event::ReceiveFailed(error) => EventView::ReceiveFailed(*error),
            Event::Sent => EventView::Sent,
            Event::SendFailed(error) => EventView::SendFailed(*error),
        }
    }
}

impl Event {
    /// The event that reports how the upgrade handshake ended.
    pub fn upgrade(outcome: Result<(), HandshakeError>) -> (event: Event)
        ensures
            event@ == (match outcome {
                Ok(_) => EventView::Upgraded,
                Err(error) => EventView::UpgradeFailed(error),
            }),
    {
        match outcome {
            Ok(_) => Event::Upgraded,
            Err(error) => Event::UpgradeFailed(error),
        }
    }

    /// The event that reports what a receive on the message channel gave:
    /// a message, the end of the stream, or an error.
    pub fn receive(outcome: Result<Option<Message>, TransportError>) -> (event: Event)
        ensures
            event@ == (match outcome {
                Ok(Some(message)) => EventView::Received(message@),
                Ok(None) => EventView::PeerClosed,
                Err(error) => EventView::ReceiveFailed(error),
            }),
    {
        match outcome {
            Ok(Some(message)) => Event::Received(message),
            Ok(None) => Event::PeerClosed,
            Err(error) => Event::ReceiveFailed(error),
        }
    }

    /// The event that reports how a send on the message channel ended.
    pub fn send(outcome: Result<(), TransportError>) -> (event: Event)
        ensures
            event@ == (match outcome {
                Ok(_) => EventView::Sent,
                Err(error) => EventView::SendFailed(error),
            }),
    {
        match outcome {
            Ok(_) => Event::Sent,
            Err(error) => Event::SendFailed(error),
        }
    }
}

/// What the driver has to do next.
#[derive(Debug, PartialEq, Eq)]
pub enum Action {
    /// Wait for the next message and report what came.
    Receive,
    /// Write this message to the peer and report the outcome.
    Send(Message),
    /// Try to write a close frame to the peer and report the outcome.
    AcknowledgeClose,
    /// Release the connection. The session is over.
    Release,
}

/// The mathematical value of an [`Action`].
pub enum ActionView {
    Receive,
    Send(MessageView),
    AcknowledgeClose,
    Release,
}

impl View for Action {
    type V = ActionView;

    open spec fn view(&self) -> ActionView {
        match self {
            Action::Receive => ActionView::Receive,
            Action::Send(message) => ActionView::Send(message@),
            Action::AcknowledgeClose => ActionView::AcknowledgeClose,
            Action::Release => ActionView::Release,
        }
    }
}

impl ActionView {
    /// Whether the action reads from or writes to the message channel.
    pub open spec fn touches_channel(self) -> bool {
        !(self is Release)
    }
}

/// The state of one connection.
#[derive(Debug)]
pub struct Session {
    phase: Phase,
    max_message_size: usize,
}

/// The mathematical value of a [`Session`].
pub struct SessionView {
    /// Where the session stands.
    pub phase: Phase,
    /// The largest payload, in bytes, that the session accepts.
    pub max_message_size: nat,
}

impl View for Session {
    type V = SessionView;

    closed spec fn view(&self) -> SessionView {
        SessionView { phase: self.phase, max_message_size: self.max_message_size as nat }
    }
}

impl SessionView {
    /// The same session at another phase.
    pub open spec fn at(self, phase: Phase) -> SessionView {
        SessionView { phase, max_message_size: self.max_message_size }
    }

    /// A session that has just been created for an accepted connection.
    pub open spec fn fresh(max_message_size: nat) -> SessionView {
        SessionView { phase: Phase::Handshaking, max_message_size }
    }

    /// Whether the session accepts the payload of `message`.
    pub open spec fn admits(self, message: MessageView) -> bool {
        message.payload_len() <= self.max_message_size
    }
}

/// The transition of a session on one event: the session afterwards and
/// the action handed to the driver.
///
/// An event that is not the outcome of what the session asked for last is
/// out of turn and fails the session. While closing, whatever is reported
/// completes the close. A finished session stays as it is.
pub open spec fn next(session: SessionView, event: EventView) -> (SessionView, ActionView) {
    let fail = |failure: Failure| (session.at(Phase::Failed(failure)), ActionView::Release);
    match session.phase {
        Phase::Handshaking => match event {
            EventView::Upgraded => (session.at(Phase::Receiving), ActionView::Receive),
            EventView::UpgradeFailed(error) => fail(Failure::Handshake(error)),
            _ => fail(Failure::OutOfTurn),
        },
        Phase::Receiving => match event {
            EventView::Received(message) => if !session.admits(message) {
                fail(Failure::Receive(TransportError::MessageTooLarge))
            } else if message.is_data() {
                (session.at(Phase::Replying), ActionView::Send(transformed(message)))
            } else if message is Close {
                (session.at(Phase::Closing), ActionView::AcknowledgeClose)
            } else {
                (session, ActionView::Receive)
            },
            EventView::PeerClosed => (session.at(Phase::Closing), ActionView::AcknowledgeClose),
            EventView::ReceiveFailed(error) => fail(Failure::Receive(error)),
            _ => fail(Failure::OutOfTurn),
        },
        Phase::Replying => match event {
            EventView::Sent => (session.at(Phase::Receiving), ActionView::Receive),
            EventView::SendFailed(error) => fail(Failure::Send(error)),
            _ => fail(Failure::OutOfTurn),
        },
        Phase::Closing => (session.at(Phase::Closed), ActionView::Release),
        Phase::Closed => (session, ActionView::Release),
        Phase::Failed(_) => (session, ActionView::Release),
    }
}

impl Session {
    /// A session for a freshly accepted connection, about to be upgraded.
    /// It will accept payloads of up to `max_message_size` bytes.
    pub fn new(max_message_size: usize) -> (session: Session)
        ensures
            session@ == SessionView::fresh(max_message_size as nat),
    {
        Session { phase: Phase::Handshaking, max_message_size }
    }

    /// Takes the outcome of the last operation and says what to do next.
    pub fn step(&mut self, event: Event) -> (action: Action)
        ensures
            (final(self)@, action@) == next(old(self)@, event@),
    {
        match self.phase {
            Phase::Handshaking => match event {
                Event::Upgraded => {
                    self.phase = Phase::Receiving;
                    Action::Receive
                },
                Event::UpgradeFailed(error) => self.fail(Failure::Handshake(error)),
                _ => self.fail(Failure::OutOfTurn),
            },
            Phase::Receiving => match event {
                Event::Received(message) => {
                    if message.payload_len() > self.max_message_size {
                        self.fail(Failure::Receive(TransportError::MessageTooLarge))
                    } else if message.is_data() {
                        self.phase = Phase::Replying;
                        Action::Send(transform(message))
                    } else if let Message::Close = message {
                        self.phase = Phase::Closing;
                        Action::AcknowledgeClose
                    } else {
                        Action::Receive
                    }
                },
                Event::PeerClosed => {
                    self.phase = Phase::Closing;
                    Action::AcknowledgeClose
                },
                Event::ReceiveFailed(error) => self.fail(Failure::Receive(error)),
                _ => self.fail(Failure::OutOfTurn),
            },
            Phase::Replying => match event {
                Event::Sent => {
                    self.phase = Phase::Receiving;
                    Action::Receive
                },
                Event::SendFailed(error) => self.fail(Failure::Send(error)),
                _ => self.fail(Failure::OutOfTurn),
            },
            Phase::Closing => {
                self.phase = Phase::Closed;
                Action::Release
            },
            Phase::Closed => Action::Release,
            Phase::Failed(_) => Action::Release,
        }
    }

    fn fail(&mut self, failure: Failure) -> (action: Action)
        ensures
            final(self)@ == old(self)@.at(Phase::Failed(failure)),
            action == Action::Release,
    {
        self.phase = Phase::Failed(failure);
        Action::Release
    }

    /// Where the session stands.
    pub fn phase(&self) -> (phase: Phase)
        ensures
            phase == self@.phase,
    {
        self.phase
    }

    /// The lifecycle state of the session.
    pub fn state(&self) -> (state: State)
        ensures
            state == self@.phase.state(),
    {
        match self.phase {
            Phase::Handshaking => State::Handshaking,
            Phase::Receiving => State::Open,
            Phase::Replying => State::Open,
            Phase::Closing => State::Closing,
            Phase::Closed => State::Closed,
            Phase::Failed(_) => State::Failed,
        }
    }

    /// Why the session failed, if it did.
    pub fn failure(&self) -> (failure: Option<Failure>)
        ensures
            failure == (match self@.phase {
                Phase::Failed(reason) => Some(reason),
                _ => None,
            }),
    {
        match self.phase {
            Phase::Failed(reason) => Some(reason),
            _ => None,
        }
    }

    /// Whether the session is over.
    pub fn is_finished(&self) -> (finished: bool)
        ensures
            finished == self@.phase.is_terminal(),
    {
        match self.phase {
            Phase::Closed => true,
            Phase::Failed(_) => true,
            _ => false,
        }
    }

    /// The largest payload, in bytes, that the session accepts.
    pub fn max_message_size(&self) -> (limit: usize)
        ensures
            limit == self@.max_message_size,
    {
        self.max_message_size
    }
}

} // verus!
