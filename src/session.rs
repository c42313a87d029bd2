use vstd::prelude::*;
use crate::frame::{parse_user_id, user_id_of};
use crate::hub::{ConnectionHub, RecvOutcome};
use crate::models::{RMessage, DEFAULT_CHAT_ID};

verus! {

/// What goes wrong in a session; each is local to that session.
#[derive(Debug, Clone, Copy, PartialEq, Eq, Structural)]
pub enum SessionError {
    /// The identification frame was absent, malformed or not text.
    Handshake,
    /// Reading from or writing to the connection failed.
    Transport,
    /// The shared channel refused a message.
    Broadcast,
    /// The message store refused a message.
    Persistence,
}

/// The life of one connection.
#[derive(Debug, Clone, Copy, PartialEq, Eq, Structural)]
pub enum SessionState {
    /// Waiting for the protocol upgrade.
    Connecting,
    /// Waiting for the first frame, which names the user.
    Identifying,
    /// Relaying, on behalf of `user_id`.
    Active { user_id: i32 },
    /// One loop ended; waiting for both to stop.
    Closing,
    /// Torn down; nothing happens any more.
    Closed,
}

/// What the reader takes from the connection.
#[derive(Debug)]
pub enum Inbound {
    /// A text frame.
    Text(String),
    /// A frame that is neither text nor a close (binary, ping, pong).
    Other,
    /// The peer closed the connection.
    Close,
    /// The connection failed or sent a malformed frame.
    TransportError,
    /// The connection ended without a close frame.
    End,
}

/// What happens to a session.
#[derive(Debug)]
pub enum SessionEvent {
    /// The protocol upgrade completed.
    Upgraded,
    /// The protocol upgrade failed.
    UpgradeFailed,
    /// The reader took a frame, or learnt that there is none.
    Frame(Inbound),
    /// The writer could not write to the connection.
    WriteFailed,
    /// Publishing a relayed message failed.
    PublishFailed,
    /// Storing a relayed message failed.
    PersistFailed,
    /// Both loops have stopped.
    LoopsStopped,
}

/// What the session asks of its runtime.
#[derive(Debug)]
pub enum SessionAction {
    /// Nothing to do.
    Nothing,
    /// Open a subscription and start the writer; the session speaks for
    /// `user_id`.
    Subscribe { user_id: i32 },
    /// Publish the message's text and store the message: both are
    /// attempted, whatever becomes of the other.
    Relay(RMessage),
    /// Report an error; the session goes on.
    Report(SessionError),
    /// Refuse the connection and close it; no subscription was opened.
    Reject(SessionError),
    /// The reader has ended: cancel the writer.
    StopWriter,
    /// The writer has ended: cancel the reader.
    StopReader,
    /// Release the subscription and close the connection.
    Release,
}

/// What the writer does with what its subscription yielded.
#[derive(Debug)]
pub enum WriterAction {
    /// Write this text to the connection.
    Write(String),
    /// Messages were dropped for falling behind: read on.
    Skip,
    /// Nothing new: wait for the next publication.
    Wait,
    /// The channel is gone: end the writer loop.
    Stop,
}

/// The active state of a session that speaks for `user_id`.
pub open spec fn active(user_id: i32) -> SessionState {
    SessionState::Active { user_id }
}

/// Whether `f` ends the reader loop.
pub open spec fn ends_reader(f: Inbound) -> bool {
    f is Close || f is TransportError || f is End
}

/// The state that follows `s` on event `e`.
pub open spec fn next_state(s: SessionState, e: SessionEvent) -> SessionState {
    match s {
        SessionState::Connecting => match e {
            SessionEvent::Upgraded => SessionState::Identifying,
            SessionEvent::UpgradeFailed => SessionState::Closed,
            _ => s,
        },
        SessionState::Identifying => match e {
            SessionEvent::Frame(Inbound::Text(t)) => match user_id_of(t@) {
                Some(v) => SessionState::Active { user_id: v as i32 },
                None => SessionState::Closed,
            },
            SessionEvent::Frame(_) => SessionState::Closed,
            _ => s,
        },
        SessionState::Active { .. } => match e {
            SessionEvent::Frame(f) => if ends_reader(f) {
                SessionState::Closing
            } else {
                s
            },
            SessionEvent::WriteFailed => SessionState::Closing,
            _ => s,
        },
        SessionState::Closing => match e {
            SessionEvent::LoopsStopped => SessionState::Closed,
            _ => s,
        },
        SessionState::Closed => s,
    }
}

/// Whether `a` is what the session asks for when `e` happens in `s`.
pub open spec fn action_fits(s: SessionState, e: SessionEvent, a: SessionAction) -> bool {
    match s {
        SessionState::Identifying => match e {
            SessionEvent::Frame(Inbound::Text(t)) => match user_id_of(t@) {
                Some(v) => a == SessionAction::Subscribe { user_id: v as i32 },
                None => a == SessionAction::Reject(SessionError::Handshake),
            },
            SessionEvent::Frame(_) => a == SessionAction::Reject(SessionError::Handshake),
            _ => a is Nothing,
        },
        SessionState::Active { user_id } => match e {
            SessionEvent::Frame(Inbound::Text(t)) => {
                &&& a is Relay
                &&& a->Relay_0.chat_id == DEFAULT_CHAT_ID
                &&& a->Relay_0.user_id == user_id
                &&& a->Relay_0.message@ == t@
            },
            SessionEvent::Frame(f) => if ends_reader(f) {
                a is StopWriter
            } else {
                a is Nothing
            },
            SessionEvent::WriteFailed => a is StopReader,
            SessionEvent::PublishFailed => a == SessionAction::Report(SessionError::Broadcast),
            SessionEvent::PersistFailed => a == SessionAction::Report(SessionError::Persistence),
            _ => a is Nothing,
        },
        SessionState::Closing => match e {
            SessionEvent::LoopsStopped => a is Release,
            _ => a is Nothing,
        },
        _ => a is Nothing,
    }
}

/// Takes the session from `state` on `event`, and says what to do.
pub fn step(state: SessionState, event: SessionEvent) -> (r: (SessionState, SessionAction))
    ensures
        r.0 == next_state(state, event),
        action_fits(state, event, r.1),
{
    match state {
        SessionState::Connecting => match event {
            SessionEvent::Upgraded => (SessionState::Identifying, SessionAction::Nothing),
            SessionEvent::UpgradeFailed => (SessionState::Closed, SessionAction::Nothing),
            _ => (state, SessionAction::Nothing),
        },
        SessionState::Identifying => match event {
            SessionEvent::Frame(Inbound::Text(t)) => match parse_user_id(t.as_str()) {
                Some(v) => (SessionState::Active { user_id: v }, SessionAction::Subscribe { user_id: v }),
                None => (SessionState::Closed, SessionAction::Reject(SessionError::Handshake)),
            },
            SessionEvent::Frame(_) => (SessionState::Closed, SessionAction::Reject(SessionError::Handshake)),
            _ => (state, SessionAction::Nothing),
        },
        SessionState::Active { user_id } => match event {
            SessionEvent::Frame(Inbound::Text(t)) => (
                state,
                SessionAction::Relay(RMessage::in_default_chat(user_id, t)),
            ),
            SessionEvent::Frame(Inbound::Other) => (state, SessionAction::Nothing),
            SessionEvent::Frame(_) => (SessionState::Closing, SessionAction::StopWriter),
            SessionEvent::WriteFailed => (SessionState::Closing, SessionAction::StopReader),
            SessionEvent::PublishFailed => (state, SessionAction::Report(SessionError::Broadcast)),
            SessionEvent::PersistFailed => (state, SessionAction::Report(SessionError::Persistence)),
            _ => (state, SessionAction::Nothing),
        },
        SessionState::Closing => match event {
            SessionEvent::LoopsStopped => (SessionState::Closed, SessionAction::Release),
            _ => (state, SessionAction::Nothing),
        },
        SessionState::Closed => (state, SessionAction::Nothing),
    }
}

/// Whether `a` is what the writer does with `outcome`.
pub open spec fn writes(outcome: RecvOutcome, a: WriterAction) -> bool {
    match outcome {
        RecvOutcome::Message(m) => a is Write && a->Write_0@ == m@,
        RecvOutcome::Lagged(_) => a is Skip,
        RecvOutcome::Empty => a is Wait,
        RecvOutcome::Closed => a is Stop,
    }
}

/// What the writer does with `outcome`: it writes each message, reads on
/// past a lag, waits when there is nothing new, and stops only when the
/// channel is gone.
pub fn writer_step(outcome: RecvOutcome) -> (r: WriterAction)
    ensures
        writes(outcome, r),
{
    match outcome {
        RecvOutcome::Message(m) => WriterAction::Write(m),
        RecvOutcome::Lagged(_) => WriterAction::Skip,
        RecvOutcome::Empty => WriterAction::Wait,
        RecvOutcome::Closed => WriterAction::Stop,
    }
}

/// Once closed, a session stays closed and asks for nothing more.
pub proof fn lemma_closed_is_terminal(e: SessionEvent, a: SessionAction)
    ensures
        next_state(SessionState::Closed, e) == SessionState::Closed,
        action_fits(SessionState::Closed, e, a) ==> a is Nothing,
{
}

/// A first frame that is not text naming a 32-bit user identifier closes the
/// session with a handshake error: it never becomes active and never asks
/// for a subscription, on that event or any later one.
pub proof fn lemma_malformed_first_frame_rejected(f: Inbound, a: SessionAction, later: SessionEvent)
    requires
        match f {
            Inbound::Text(t) => user_id_of(t@) is None,
            _ => true,
        },
    ensures
        next_state(SessionState::Identifying, SessionEvent::Frame(f)) == SessionState::Closed,
        action_fits(SessionState::Identifying, SessionEvent::Frame(f), a) ==> a
            == SessionAction::Reject(SessionError::Handshake),
        next_state(next_state(SessionState::Identifying, SessionEvent::Frame(f)), later)
            == SessionState::Closed,
{
}

/// When either loop of an active session ends, the session moves to closing
/// and cancels the other loop; once both have stopped it releases its
/// subscription and connection exactly once, and closes for good.
pub proof fn lemma_one_loop_ending_stops_the_other(
    user_id: i32,
    f: Inbound,
    a1: SessionAction,
    a2: SessionAction,
    a3: SessionAction,
    e: SessionEvent,
)
    requires
        ends_reader(f),
    ensures
        next_state(active(user_id), SessionEvent::Frame(f)) == SessionState::Closing,
        action_fits(active(user_id), SessionEvent::Frame(f), a1) ==> a1 is StopWriter,
        next_state(active(user_id), SessionEvent::WriteFailed) == SessionState::Closing,
        action_fits(active(user_id), SessionEvent::WriteFailed, a2) ==> a2 is StopReader,
        next_state(SessionState::Closing, SessionEvent::LoopsStopped) == SessionState::Closed,
        action_fits(SessionState::Closing, SessionEvent::LoopsStopped, a3) ==> a3 is Release,
        next_state(SessionState::Closed, e) == SessionState::Closed,
        action_fits(SessionState::Closed, e, a3) ==> !(a3 is Release),
{
}

/// A failure to store or to publish one message leaves the session active
/// for its user, so every later text frame is again both published and
/// stored.
pub proof fn lemma_failures_keep_relaying(user_id: i32, t: String, a: SessionAction)
    ensures
        next_state(active(user_id), SessionEvent::PersistFailed)
            == active(user_id),
        next_state(active(user_id), SessionEvent::PublishFailed)
            == active(user_id),
        next_state(active(user_id), SessionEvent::Frame(Inbound::Text(t)))
            == active(user_id),
        action_fits(active(user_id), SessionEvent::Frame(Inbound::Text(t)), a) ==> (a is Relay
            && a->Relay_0.user_id == user_id && a->Relay_0.message@ == t@),
{
}

/// Delivery: a writer whose live subscription has not fallen behind writes
/// the first message it has pending and is left with the rest, still not
/// behind; so it writes every pending message, in the order they were
/// published. A lagged one writes nothing, skips, and is no longer behind.
pub proof fn lemma_writer_delivers_in_order(
    before: ConnectionHub,
    after: ConnectionHub,
    id: int,
    r: RecvOutcome,
    a: WriterAction,
)
    requires
        after.received(&before, id, r),
        writes(r, a),
        before.cursor(id) is Some,
    ensures
        !before.lagged(id) && before.pending(id).len() > 0 ==> a is Write && a->Write_0@
            == before.pending(id)[0] && after.pending(id) == before.pending(id).drop_first()
            && !after.lagged(id),
        before.lagged(id) ==> a is Skip && !after.lagged(id) && after.pending(id) == before.pending(
            id,
        ),
{
}

} // verus!
