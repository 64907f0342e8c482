use web_sockets::message::{BindError, HandshakeError, Message, TransportError};
use web_sockets::session::{Action, Event, Failure, Phase, Session, State};
use web_sockets::supervisor::{
    bind_address, ListenerAction, ListenerEvent, Supervisor, DEFAULT_ADDRESS,
    DEFAULT_MAX_MESSAGE_SIZE,
};
use web_sockets::transform::{reverse_text, transform};

fn text(payload: &str) -> Message {
    Message::Text(String::from(payload))
}

fn open_session(limit: usize) -> Session {
    let mut session = Session::new(limit);
    assert_eq!(session.step(Event::Upgraded), Action::Receive);
    session
}

#[test]
fn reverses_ascii_text() {
    assert_eq!(reverse_text("hello"), "olleh");
    assert_eq!(reverse_text(""), "");
    assert_eq!(reverse_text("a"), "a");
}

#[test]
fn reverses_characters_not_bytes() {
    assert_eq!(reverse_text("héllo wörld"), "dlröw olléh");
    assert_eq!(reverse_text("日本語"), "語本日");
    assert_eq!(reverse_text("a🦀b"), "b🦀a");
}

#[test]
fn reversing_twice_gives_the_text_back() {
    for sample in ["", "hello", "racecar", "héllo wörld", "日本語", "a🦀b", "line\nbreak"] {
        assert_eq!(reverse_text(&reverse_text(sample)), sample);
        assert_eq!(transform(transform(text(sample))), text(sample));
    }
}

#[test]
fn only_palindromes_are_left_unchanged() {
    assert_eq!(reverse_text("racecar"), "racecar");
    assert_eq!(reverse_text("été"), "été");
    assert_ne!(reverse_text("hello"), "hello");
    assert_ne!(reverse_text("ab"), "ab");
}

#[test]
fn transform_reverses_text_messages() {
    assert_eq!(transform(text("hello")), text("olleh"));
}

#[test]
fn transform_leaves_other_messages_unchanged() {
    assert_eq!(
        transform(Message::Binary(vec![1, 2, 3])),
        Message::Binary(vec![1, 2, 3])
    );
    assert_eq!(transform(Message::Close), Message::Close);
    assert_eq!(transform(Message::Control), Message::Control);
}

#[test]
fn payload_length_counts_bytes() {
    assert_eq!(text("hello").payload_len(), 5);
    assert_eq!(text("héllo").payload_len(), 6);
    assert_eq!(Message::Binary(vec![0; 7]).payload_len(), 7);
    assert_eq!(Message::Close.payload_len(), 0);
    assert_eq!(Message::Control.payload_len(), 0);
    assert!(text("").is_data());
    assert!(Message::Binary(Vec::new()).is_data());
    assert!(!Message::Close.is_data());
    assert!(!Message::Control.is_data());
}

#[test]
fn protocol_violations_are_told_from_connection_failures() {
    assert!(!TransportError::Io.is_protocol_violation());
    assert!(TransportError::MalformedFrame.is_protocol_violation());
    assert!(TransportError::MessageTooLarge.is_protocol_violation());
}

#[test]
fn events_report_outcomes() {
    assert_eq!(Event::upgrade(Ok(())), Event::Upgraded);
    assert_eq!(
        Event::upgrade(Err(HandshakeError::MissingHeader)),
        Event::UpgradeFailed(HandshakeError::MissingHeader)
    );
    assert_eq!(Event::receive(Ok(Some(text("hi")))), Event::Received(text("hi")));
    assert_eq!(Event::receive(Ok(None)), Event::PeerClosed);
    assert_eq!(
        Event::receive(Err(TransportError::MalformedFrame)),
        Event::ReceiveFailed(TransportError::MalformedFrame)
    );
    assert_eq!(Event::send(Ok(())), Event::Sent);
    assert_eq!(
        Event::send(Err(TransportError::Io)),
        Event::SendFailed(TransportError::Io)
    );
}

#[test]
fn a_new_session_is_handshaking() {
    let session = Session::new(1024);
    assert_eq!(session.state(), State::Handshaking);
    assert_eq!(session.phase(), Phase::Handshaking);
    assert_eq!(session.max_message_size(), 1024);
    assert_eq!(session.failure(), None);
    assert!(!session.is_finished());
}

#[test]
fn echo_scenario() {
    let mut session = Session::new(1024);
    assert_eq!(session.step(Event::Upgraded), Action::Receive);
    assert_eq!(session.state(), State::Open);

    assert_eq!(
        session.step(Event::Received(text("hello"))),
        Action::Send(text("olleh"))
    );
    assert_eq!(session.state(), State::Open);
    assert_eq!(session.phase(), Phase::Replying);
    assert_eq!(session.step(Event::Sent), Action::Receive);
    assert_eq!(session.phase(), Phase::Receiving);

    assert_eq!(
        session.step(Event::Received(text("racecar"))),
        Action::Send(text("racecar"))
    );
    assert_eq!(session.step(Event::Sent), Action::Receive);

    assert_eq!(
        session.step(Event::Received(Message::Close)),
        Action::AcknowledgeClose
    );
    assert_eq!(session.state(), State::Closing);
    assert_eq!(session.step(Event::Sent), Action::Release);
    assert_eq!(session.state(), State::Closed);
    assert!(session.is_finished());
    assert_eq!(session.failure(), None);

    assert_eq!(session.step(Event::Received(text("late"))), Action::Release);
    assert_eq!(session.step(Event::Sent), Action::Release);
    assert_eq!(session.state(), State::Closed);
}

#[test]
fn binary_messages_are_echoed_unchanged() {
    let mut session = open_session(1024);
    assert_eq!(
        session.step(Event::Received(Message::Binary(vec![1, 2, 3]))),
        Action::Send(Message::Binary(vec![1, 2, 3]))
    );
    assert_eq!(session.step(Event::Sent), Action::Receive);
}

#[test]
fn control_messages_are_passed_over() {
    let mut session = open_session(1024);
    assert_eq!(session.step(Event::Received(Message::Control)), Action::Receive);
    assert_eq!(session.phase(), Phase::Receiving);
    assert_eq!(
        session.step(Event::Received(text("ab"))),
        Action::Send(text("ba"))
    );
}

#[test]
fn oversized_message_ends_the_session_without_a_reply() {
    let mut session = open_session(4);
    assert_eq!(
        session.step(Event::Received(text("abcd"))),
        Action::Send(text("dcba"))
    );
    assert_eq!(session.step(Event::Sent), Action::Receive);
    assert_eq!(session.step(Event::Received(text("hello"))), Action::Release);
    assert_eq!(session.state(), State::Failed);
    assert_eq!(
        session.failure(),
        Some(Failure::Receive(TransportError::MessageTooLarge))
    );
    assert_eq!(session.step(Event::Received(text("ok"))), Action::Release);
}

#[test]
fn the_limit_counts_bytes_of_text() {
    let mut session = open_session(5);
    assert_eq!(session.step(Event::Received(text("héllo"))), Action::Release);
    assert_eq!(
        session.failure(),
        Some(Failure::Receive(TransportError::MessageTooLarge))
    );
    let mut binary = open_session(2);
    assert_eq!(
        binary.step(Event::Received(Message::Binary(vec![1, 2, 3]))),
        Action::Release
    );
    assert_eq!(binary.state(), State::Failed);
}

#[test]
fn failed_handshake_releases_the_connection() {
    for error in [
        HandshakeError::Malformed,
        HandshakeError::MissingHeader,
        HandshakeError::Io,
    ] {
        let mut session = Session::new(1024);
        assert_eq!(session.step(Event::UpgradeFailed(error)), Action::Release);
        assert_eq!(session.state(), State::Failed);
        assert_eq!(session.failure(), Some(Failure::Handshake(error)));
        assert!(session.is_finished());
        assert_eq!(session.step(Event::Upgraded), Action::Release);
        assert_eq!(session.step(Event::Received(text("hi"))), Action::Release);
        assert_eq!(session.failure(), Some(Failure::Handshake(error)));
    }
}

#[test]
fn receive_failure_ends_the_session() {
    for error in [TransportError::Io, TransportError::MalformedFrame, TransportError::MessageTooLarge] {
        let mut session = open_session(1024);
        assert_eq!(session.step(Event::ReceiveFailed(error)), Action::Release);
        assert_eq!(session.state(), State::Failed);
        assert_eq!(session.failure(), Some(Failure::Receive(error)));
    }
}

#[test]
fn send_failure_ends_the_session() {
    let mut session = open_session(1024);
    assert_eq!(
        session.step(Event::Received(text("hello"))),
        Action::Send(text("olleh"))
    );
    assert_eq!(session.step(Event::SendFailed(TransportError::Io)), Action::Release);
    assert_eq!(session.state(), State::Failed);
    assert_eq!(session.failure(), Some(Failure::Send(TransportError::Io)));
    assert_eq!(session.step(Event::Received(text("again"))), Action::Release);
}

#[test]
fn end_of_stream_closes_the_session() {
    let mut session = open_session(1024);
    assert_eq!(session.step(Event::PeerClosed), Action::AcknowledgeClose);
    assert_eq!(session.state(), State::Closing);
    assert_eq!(
        session.step(Event::SendFailed(TransportError::Io)),
        Action::Release
    );
    assert_eq!(session.state(), State::Closed);
    assert_eq!(session.failure(), None);
}

#[test]
fn no_message_is_taken_while_a_reply_is_in_flight() {
    let mut session = open_session(1024);
    assert_eq!(
        session.step(Event::Received(text("one"))),
        Action::Send(text("eno"))
    );
    assert_eq!(session.step(Event::Received(text("two"))), Action::Release);
    assert_eq!(session.failure(), Some(Failure::OutOfTurn));
}

#[test]
fn out_of_turn_reports_fail_the_session() {
    let mut handshaking = Session::new(1024);
    assert_eq!(handshaking.step(Event::Received(text("early"))), Action::Release);
    assert_eq!(handshaking.failure(), Some(Failure::OutOfTurn));

    let mut receiving = open_session(1024);
    assert_eq!(receiving.step(Event::Sent), Action::Release);
    assert_eq!(receiving.failure(), Some(Failure::OutOfTurn));

    let mut upgraded_twice = open_session(1024);
    assert_eq!(upgraded_twice.step(Event::Upgraded), Action::Release);
    assert_eq!(upgraded_twice.state(), State::Failed);
}

#[test]
fn sessions_do_not_affect_each_other() {
    let mut a = open_session(1024);
    let mut b = open_session(1024);
    assert_eq!(b.step(Event::Received(text("first"))), Action::Send(text("tsrif")));
    assert_eq!(a.step(Event::ReceiveFailed(TransportError::Io)), Action::Release);
    assert_eq!(b.step(Event::Sent), Action::Receive);
    assert_eq!(a.step(Event::Sent), Action::Release);
    assert_eq!(b.step(Event::Received(text("second"))), Action::Send(text("dnoces")));
    assert_eq!(a.state(), State::Failed);
    assert_eq!(b.state(), State::Open);
    assert_eq!(b.failure(), None);
}

#[test]
fn bind_address_falls_back_to_the_default() {
    assert_eq!(bind_address(None), "127.0.0.1:8080");
    assert_eq!(bind_address(None), DEFAULT_ADDRESS);
    assert_eq!(bind_address(Some(String::from("0.0.0.0:9000"))), "0.0.0.0:9000");
    assert_eq!(DEFAULT_MAX_MESSAGE_SIZE, 64 * 1024 * 1024);
}

#[test]
fn supervisor_keeps_accepting() {
    let mut supervisor = Supervisor::new();
    assert_eq!(supervisor, Supervisor::Binding);
    assert_eq!(supervisor.step(ListenerEvent::Bound), ListenerAction::Accept);
    assert_eq!(supervisor, Supervisor::Listening);
    assert_eq!(supervisor.step(ListenerEvent::Accepted), ListenerAction::Spawn);
    assert_eq!(supervisor.step(ListenerEvent::AcceptFailed), ListenerAction::Accept);
    assert_eq!(supervisor.step(ListenerEvent::Accepted), ListenerAction::Spawn);
    assert_eq!(supervisor.step(ListenerEvent::Bound), ListenerAction::Accept);
    assert_eq!(
        supervisor.step(ListenerEvent::BindFailed(BindError::Other)),
        ListenerAction::Accept
    );
    assert_eq!(supervisor, Supervisor::Listening);
    assert_eq!(supervisor.outcome(), Ok(()));
}

#[test]
fn supervisor_stops_when_binding_fails() {
    for error in [
        BindError::InvalidAddress,
        BindError::AddressInUse,
        BindError::PermissionDenied,
        BindError::Other,
    ] {
        let mut supervisor = Supervisor::new();
        assert_eq!(
            supervisor.step(ListenerEvent::BindFailed(error)),
            ListenerAction::Exit(error)
        );
        assert_eq!(supervisor, Supervisor::Stopped(error));
        assert_eq!(supervisor.outcome(), Err(error));
        assert_eq!(supervisor.step(ListenerEvent::Accepted), ListenerAction::Exit(error));
        assert_eq!(supervisor.step(ListenerEvent::Bound), ListenerAction::Exit(error));
    }
}

#[test]
fn supervisor_binds_before_it_accepts() {
    let mut supervisor = Supervisor::new();
    assert_eq!(supervisor.outcome(), Ok(()));
    assert_eq!(supervisor.step(ListenerEvent::Accepted), ListenerAction::Bind);
    assert_eq!(supervisor.step(ListenerEvent::AcceptFailed), ListenerAction::Bind);
    assert_eq!(supervisor, Supervisor::Binding);
}
