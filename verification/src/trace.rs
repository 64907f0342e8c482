//! Whole runs of sessions: what holds of every sequence of events.

use vstd::prelude::*;
use crate::message::{HandshakeError, MessageView, TransportError};
use crate::session::{next, ActionView, EventView, Failure, Phase, SessionView, State};
use crate::transform::transformed;

verus! {

/// The session after `events` have been reported in order, and the
/// actions it answered with, one per event.
pub open spec fn run(session: SessionView, events: Seq<EventView>) -> (SessionView, Seq<ActionView>)
    decreases events.len(),
{
    if events.len() == 0 {
        (session, Seq::empty())
    } else {
        let (before, actions) = run(session, events.drop_last());
        let (after, action) = next(before, events.last());
        (after, actions.push(action))
    }
}

/// One entry of a schedule for two sessions: which of them the event is
/// reported to (`true` for the first), and the event.
pub type Turn = (bool, EventView);

/// The events of `schedule` that are reported to the chosen session.
pub open spec fn events_of(schedule: Seq<Turn>, first: bool) -> Seq<EventView>
    decreases schedule.len(),
{
    if schedule.len() == 0 {
        Seq::empty()
    } else if schedule.last().0 == first {
        events_of(schedule.drop_last(), first).push(schedule.last().1)
    } else {
        events_of(schedule.drop_last(), first)
    }
}

/// Two sessions driven side by side: each turn of `schedule` is reported
/// to one of them. Gives both sessions afterwards, and the actions of each.
pub open spec fn run_pair(a: SessionView, b: SessionView, schedule: Seq<Turn>) -> (
    (SessionView, Seq<ActionView>),
    (SessionView, Seq<ActionView>),
)
    decreases schedule.len(),
{
    if schedule.len() == 0 {
        ((a, Seq::empty()), (b, Seq::empty()))
    } else {
        let ((a_before, a_actions), (b_before, b_actions)) = run_pair(a, b, schedule.drop_last());
        let (to_first, event) = schedule.last();
        if to_first {
            let (a_after, action) = next(a_before, event);
            ((a_after, a_actions.push(action)), (b_before, b_actions))
        } else {
            let (b_after, action) = next(b_before, event);
            ((a_before, a_actions), (b_after, b_actions.push(action)))
        }
    }
}

/// A run answers every event with exactly one action, and the action at
/// position `k` is the one the session gives on event `k` after the
/// events before it.
pub proof fn lemma_run_unfolds(session: SessionView, events: Seq<EventView>, k: int)
    requires
        0 <= k < events.len(),
    ensures
        run(session, events).1.len() == events.len(),
        run(session, events).1[k] == next(run(session, events.take(k)).0, events[k]).1,
    decreases events.len(),
{
    let shorter = events.drop_last();
    lemma_run_len(session, shorter);
    if k == events.len() - 1 {
        assert(events.take(k) == shorter);
    } else {
        lemma_run_unfolds(session, shorter, k);
        assert(shorter.take(k) == events.take(k));
    }
}

/// A run answers every event with exactly one action.
pub proof fn lemma_run_len(session: SessionView, events: Seq<EventView>)
    ensures
        run(session, events).1.len() == events.len(),
    decreases events.len(),
{
    if events.len() > 0 {
        lemma_run_len(session, events.drop_last());
    }
}

/// The size limit of a session never changes.
pub proof fn lemma_limit_is_kept(session: SessionView, events: Seq<EventView>)
    ensures
        run(session, events).0.max_message_size == session.max_message_size,
    decreases events.len(),
{
    if events.len() > 0 {
        lemma_limit_is_kept(session, events.drop_last());
    }
}

/// Whether `event` brings a text or binary message that `session` accepts.
pub open spec fn accepted(session: SessionView, event: EventView) -> bool {
    event matches EventView::Received(message) && message.is_data() && session.admits(message)
}

/// Every message that an open session accepts is answered by exactly one
/// outbound message, the transformed one of the same kind, and nothing
/// else is ever sent: in any run, the action at position `k` is a send
/// exactly if the session was waiting for a message and event `k` brought
/// a text or binary message within the limit; the message sent is then
/// the transform of the one received.
pub proof fn lemma_one_reply_per_message(session: SessionView, events: Seq<EventView>, k: int)
    requires
        0 <= k < events.len(),
    ensures
        ({
            let before = run(session, events.take(k)).0;
            let action = run(session, events).1[k];
            &&& action is Send <==> before.phase is Receiving && accepted(before, events[k])
            &&& action is Send ==> (events[k] matches EventView::Received(message) && action
                == ActionView::Send(transformed(message)))
        }),
{
    lemma_run_unfolds(session, events, k);
}

/// No message is processed before the reply to the previous one has been
/// written: after a send at position `k`, the session asks for the next
/// message only when the send is reported as done, and otherwise releases
/// the connection; whatever is reported, it sends nothing.
pub proof fn lemma_reply_precedes_next_receive(
    session: SessionView,
    events: Seq<EventView>,
    k: int,
)
    requires
        0 <= k,
        k + 1 < events.len(),
        run(session, events).1[k] is Send,
    ensures
        ({
            let following = run(session, events).1[k + 1];
            &&& following is Receive <==> events[k + 1] is Sent
            &&& following is Receive || following is Release
        }),
{
    lemma_run_unfolds(session, events, k);
    lemma_run_unfolds(session, events, k + 1);
    assert(events.take(k + 1).drop_last() == events.take(k));
}

/// Whether a session may pass from state `from` to state `to` in one
/// step: it stays where it is or moves on towards `Closed`, and it may
/// fail while it is handshaking or open.
pub open spec fn may_follow(from: State, to: State) -> bool {
    match from {
        State::Handshaking => to == State::Open || to == State::Failed,
        State::Open => to == State::Open || to == State::Closing || to == State::Failed,
        State::Closing => to == State::Closed,
        State::Closed => to == State::Closed,
        State::Failed => to == State::Failed,
    }
}

/// A session only moves forward through its lifecycle, from handshaking
/// to open, to closing, to closed; failing is final as well.
pub proof fn lemma_lifecycle_moves_forward(session: SessionView, event: EventView)
    ensures
        may_follow(session.phase.state(), next(session, event).0.phase.state()),
        next(session, event).0.max_message_size == session.max_message_size,
{
}

/// The connection is released exactly when the session ends, whichever
/// way it ends: a step answers with the release if and only if it leaves
/// the session closed or failed.
pub proof fn lemma_release_iff_finished(session: SessionView, event: EventView)
    ensures
        next(session, event).1 is Release <==> next(session, event).0.phase.is_terminal(),
{
}

/// A finished session processes nothing: it stays as it is, and answers
/// whatever is reported with the release of the connection.
pub proof fn lemma_finished_stays_finished(session: SessionView, events: Seq<EventView>)
    requires
        session.phase.is_terminal(),
    ensures
        run(session, events).0 == session,
        run(session, events).1.len() == events.len(),
        forall|i: int| 0 <= i < events.len() ==> run(session, events).1[i] == ActionView::Release,
    decreases events.len(),
{
    if events.len() > 0 {
        lemma_finished_stays_finished(session, events.drop_last());
    }
}

/// A close from the peer, as a close message or as the end of the stream,
/// is acknowledged and ends the session in `Closed`; nothing is received
/// or sent afterwards. Here `outcome` is whatever the driver reports of
/// the acknowledgement, and `later` whatever it reports after that.
pub proof fn lemma_peer_close_ends_session(
    session: SessionView,
    close: EventView,
    outcome: EventView,
    later: Seq<EventView>,
)
    requires
        session.phase is Receiving,
        close == EventView::Received(MessageView::Close) || close is PeerClosed,
    ensures
        ({
            let (closing, first) = next(session, close);
            let (closed, second) = next(closing, outcome);
            let (end, rest) = run(closed, later);
            &&& closing.phase.state() == State::Closing
            &&& first == ActionView::AcknowledgeClose
            &&& closed.phase.state() == State::Closed
            &&& second == ActionView::Release
            &&& end == closed
            &&& forall|i: int| 0 <= i < rest.len() ==> !rest[i].touches_channel()
        }),
{
    let closed = next(next(session, close).0, outcome).0;
    lemma_finished_stays_finished(closed, later);
}

/// A failed handshake fails the session with the handshake's error and
/// releases the connection at once; no message is received or sent,
/// whatever is reported later.
pub proof fn lemma_failed_handshake_releases(
    max_message_size: nat,
    error: HandshakeError,
    later: Seq<EventView>,
)
    ensures
        ({
            let (failed, first) = next(
                SessionView::fresh(max_message_size),
                EventView::UpgradeFailed(error),
            );
            let (end, rest) = run(failed, later);
            &&& failed.phase == Phase::Failed(Failure::Handshake(error))
            &&& first == ActionView::Release
            &&& end == failed
            &&& forall|i: int| 0 <= i < rest.len() ==> !rest[i].touches_channel()
        }),
{
    let failed = next(SessionView::fresh(max_message_size), EventView::UpgradeFailed(error)).0;
    lemma_finished_stays_finished(failed, later);
}

/// A transport error ends the session it is reported to, in `Failed`, and
/// the connection is released without a reply.
pub proof fn lemma_transport_error_is_fatal(session: SessionView, error: TransportError)
    requires
        session.phase.state() == State::Open,
    ensures
        session.phase is Receiving ==> next(session, EventView::ReceiveFailed(error)) == (
            session.at(Phase::Failed(Failure::Receive(error))),
            ActionView::Release,
        ),
        session.phase is Replying ==> next(session, EventView::SendFailed(error)) == (
            session.at(Phase::Failed(Failure::Send(error))),
            ActionView::Release,
        ),
{
}

/// A message larger than the limit ends the session with a protocol
/// violation, and no reply is sent.
pub proof fn lemma_oversized_message_is_fatal(session: SessionView, message: MessageView)
    requires
        session.phase is Receiving,
        message.payload_len() > session.max_message_size,
    ensures
        next(session, EventView::Received(message)) == (
            session.at(Phase::Failed(Failure::Receive(TransportError::MessageTooLarge))),
            ActionView::Release,
        ),
        TransportError::MessageTooLarge.protocol_violation(),
{
}

/// Sessions are isolated from each other: when two sessions are driven
/// side by side, in any interleaving, each ends up where it would have
/// ended alone on its own events, and answers with the same actions. A
/// failure reported to one of them changes nothing for the other.
pub proof fn lemma_sessions_are_isolated(a: SessionView, b: SessionView, schedule: Seq<Turn>)
    ensures
        run_pair(a, b, schedule).0 == run(a, events_of(schedule, true)),
        run_pair(a, b, schedule).1 == run(b, events_of(schedule, false)),
    decreases schedule.len(),
{
    if schedule.len() > 0 {
        let shorter = schedule.drop_last();
        lemma_sessions_are_isolated(a, b, shorter);
        let (to_first, event) = schedule.last();
        let own = events_of(shorter, to_first).push(event);
        assert(events_of(schedule, to_first) == own);
        assert(own.drop_last() == events_of(shorter, to_first));
    }
}

} // verus!
