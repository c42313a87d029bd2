use chat_relay::frame::parse_user_id;
use chat_relay::hub::{BroadcastError, ConnectionHub, RecvOutcome};
use chat_relay::message_log::MessageLog;
use chat_relay::models::{RMessage, DEFAULT_CHAT_ID};
use chat_relay::session::{
    step, writer_step, Inbound, SessionAction, SessionError, SessionEvent, SessionState,
    WriterAction,
};

fn recv_text(hub: &mut ConnectionHub, id: usize) -> Option<String> {
    match hub.recv(id) {
        RecvOutcome::Message(m) => Some(m),
        _ => None,
    }
}

fn identify(text: &str) -> (SessionState, SessionAction) {
    let (s, a) = step(SessionState::Connecting, SessionEvent::Upgraded);
    assert_eq!(s, SessionState::Identifying);
    assert!(matches!(a, SessionAction::Nothing));
    step(s, SessionEvent::Frame(Inbound::Text(text.to_string())))
}

#[test]
fn parses_plain_and_signed_identifiers() {
    assert_eq!(parse_user_id("10"), Some(10));
    assert_eq!(parse_user_id("+7"), Some(7));
    assert_eq!(parse_user_id("-5"), Some(-5));
    assert_eq!(parse_user_id("007"), Some(7));
    assert_eq!(parse_user_id("2147483647"), Some(i32::MAX));
    assert_eq!(parse_user_id("-2147483648"), Some(i32::MIN));
}

#[test]
fn rejects_malformed_identifiers() {
    assert_eq!(parse_user_id(""), None);
    assert_eq!(parse_user_id("-"), None);
    assert_eq!(parse_user_id("+"), None);
    assert_eq!(parse_user_id("abc"), None);
    assert_eq!(parse_user_id("12a"), None);
    assert_eq!(parse_user_id(" 12"), None);
    assert_eq!(parse_user_id("2147483648"), None);
    assert_eq!(parse_user_id("-2147483649"), None);
    assert_eq!(parse_user_id("99999999999999999999"), None);
}

#[test]
fn every_subscriber_reads_in_publication_order() {
    let mut hub = ConnectionHub::new(100);
    let a = hub.open();
    let b = hub.open();
    let c = hub.open();
    assert!(hub.publish("one".to_string()).is_ok());
    assert!(hub.publish("two".to_string()).is_ok());
    for id in [a, b, c] {
        assert_eq!(recv_text(&mut hub, id), Some("one".to_string()));
        assert_eq!(recv_text(&mut hub, id), Some("two".to_string()));
        assert!(matches!(hub.recv(id), RecvOutcome::Empty));
    }
}

#[test]
fn late_subscriber_sees_only_later_messages() {
    let mut hub = ConnectionHub::new(4);
    let a = hub.open();
    assert!(hub.publish("early".to_string()).is_ok());
    let b = hub.open();
    assert!(matches!(hub.recv(b), RecvOutcome::Empty));
    assert!(hub.publish("late".to_string()).is_ok());
    assert_eq!(recv_text(&mut hub, b), Some("late".to_string()));
    assert_eq!(recv_text(&mut hub, a), Some("early".to_string()));
}

#[test]
fn publish_without_subscribers_is_harmless() {
    let mut hub = ConnectionHub::new(2);
    assert_eq!(hub.publish("nobody".to_string()), Ok(()));
}

#[test]
fn slow_consumer_loses_only_the_oldest() {
    let mut hub = ConnectionHub::new(2);
    let slow = hub.open();
    let fast = hub.open();
    for text in ["m1", "m2", "m3", "m4", "m5"] {
        assert!(hub.publish(text.to_string()).is_ok());
        assert_eq!(recv_text(&mut hub, fast), Some(text.to_string()));
    }
    match hub.recv(slow) {
        RecvOutcome::Lagged(n) => assert_eq!(n, 3),
        other => panic!("expected a lag, got {:?}", other),
    }
    assert!(matches!(writer_step(RecvOutcome::Lagged(3)), WriterAction::Skip));
    assert_eq!(recv_text(&mut hub, slow), Some("m4".to_string()));
    assert_eq!(recv_text(&mut hub, slow), Some("m5".to_string()));
    assert!(hub.publish("m6".to_string()).is_ok());
    assert_eq!(recv_text(&mut hub, slow), Some("m6".to_string()));
}

#[test]
fn closed_channel_refuses_publication() {
    let mut hub = ConnectionHub::new(3);
    let a = hub.open();
    assert!(hub.publish("last".to_string()).is_ok());
    hub.close();
    assert_eq!(hub.publish("after".to_string()), Err(BroadcastError::Closed));
    assert_eq!(recv_text(&mut hub, a), Some("last".to_string()));
    assert!(matches!(hub.recv(a), RecvOutcome::Closed));
    assert!(matches!(writer_step(RecvOutcome::Closed), WriterAction::Stop));
}

#[test]
fn released_subscription_leaves_others_alone() {
    let mut hub = ConnectionHub::new(3);
    let a = hub.open();
    let b = hub.open();
    hub.unsubscribe(a);
    assert!(hub.publish("still here".to_string()).is_ok());
    assert!(matches!(hub.recv(a), RecvOutcome::Closed));
    assert_eq!(recv_text(&mut hub, b), Some("still here".to_string()));
}

#[test]
fn writer_writes_each_message() {
    match writer_step(RecvOutcome::Message("hi".to_string())) {
        WriterAction::Write(t) => assert_eq!(t, "hi"),
        other => panic!("expected a write, got {:?}", other),
    }
    assert!(matches!(writer_step(RecvOutcome::Empty), WriterAction::Wait));
}

#[test]
fn identification_subscribes_the_user() {
    let (s, a) = identify("42");
    assert_eq!(s, SessionState::Active { user_id: 42 });
    assert!(matches!(a, SessionAction::Subscribe { user_id: 42 }));
}

#[test]
fn malformed_first_frame_never_activates() {
    let (s, a) = identify("not a number");
    assert_eq!(s, SessionState::Closed);
    assert!(matches!(a, SessionAction::Reject(SessionError::Handshake)));
    let (s, a) = step(s, SessionEvent::Frame(Inbound::Text("12".to_string())));
    assert_eq!(s, SessionState::Closed);
    assert!(matches!(a, SessionAction::Nothing));
    for first in [Inbound::Other, Inbound::Close, Inbound::TransportError, Inbound::End] {
        let (s, a) = step(SessionState::Identifying, SessionEvent::Frame(first));
        assert_eq!(s, SessionState::Closed);
        assert!(matches!(a, SessionAction::Reject(SessionError::Handshake)));
    }
}

#[test]
fn failed_upgrade_never_starts() {
    let (s, a) = step(SessionState::Connecting, SessionEvent::UpgradeFailed);
    assert_eq!(s, SessionState::Closed);
    assert!(matches!(a, SessionAction::Nothing));
}

#[test]
fn reader_end_stops_writer_and_releases_once() {
    let active = SessionState::Active { user_id: 3 };
    let (s, a) = step(active, SessionEvent::Frame(Inbound::Close));
    assert_eq!(s, SessionState::Closing);
    assert!(matches!(a, SessionAction::StopWriter));
    let (s, a) = step(s, SessionEvent::WriteFailed);
    assert_eq!(s, SessionState::Closing);
    assert!(matches!(a, SessionAction::Nothing));
    let (s, a) = step(s, SessionEvent::LoopsStopped);
    assert_eq!(s, SessionState::Closed);
    assert!(matches!(a, SessionAction::Release));
    let (s, a) = step(s, SessionEvent::LoopsStopped);
    assert_eq!(s, SessionState::Closed);
    assert!(matches!(a, SessionAction::Nothing));
}

#[test]
fn writer_failure_stops_reader() {
    let (s, a) = step(SessionState::Active { user_id: 3 }, SessionEvent::WriteFailed);
    assert_eq!(s, SessionState::Closing);
    assert!(matches!(a, SessionAction::StopReader));
    let (s, a) = step(SessionState::Active { user_id: 3 }, SessionEvent::Frame(Inbound::TransportError));
    assert_eq!(s, SessionState::Closing);
    assert!(matches!(a, SessionAction::StopWriter));
}

#[test]
fn non_text_frames_are_ignored_when_active() {
    let (s, a) = step(SessionState::Active { user_id: 3 }, SessionEvent::Frame(Inbound::Other));
    assert_eq!(s, SessionState::Active { user_id: 3 });
    assert!(matches!(a, SessionAction::Nothing));
}

#[test]
fn persistence_failure_keeps_relaying() {
    let active = SessionState::Active { user_id: 5 };
    let (s, a) = step(active, SessionEvent::Frame(Inbound::Text("first".to_string())));
    assert!(matches!(a, SessionAction::Relay(_)));
    let (s, a) = step(s, SessionEvent::PersistFailed);
    assert_eq!(s, active);
    assert!(matches!(a, SessionAction::Report(SessionError::Persistence)));
    let (s, a) = step(s, SessionEvent::PublishFailed);
    assert_eq!(s, active);
    assert!(matches!(a, SessionAction::Report(SessionError::Broadcast)));
    let (s, a) = step(s, SessionEvent::Frame(Inbound::Text("second".to_string())));
    assert_eq!(s, active);
    match a {
        SessionAction::Relay(m) => {
            assert_eq!(m.chat_id, DEFAULT_CHAT_ID);
            assert_eq!(m.user_id, 5);
            assert_eq!(m.message, "second");
        }
        other => panic!("expected a relay, got {:?}", other),
    }
}

#[test]
fn three_connections_relay_hello() {
    let mut hub = ConnectionHub::new(100);
    let mut store = MessageLog::new();
    let mut sessions = Vec::new();
    for (name, uid) in [("A", 10), ("B", 11), ("C", 12)] {
        let (s, a) = identify(&uid.to_string());
        assert_eq!(s, SessionState::Active { user_id: uid }, "session {}", name);
        match a {
            SessionAction::Subscribe { user_id } => assert_eq!(user_id, uid),
            other => panic!("expected a subscription, got {:?}", other),
        }
        sessions.push((s, hub.open()));
    }
    let (s, a) = step(sessions[0].0, SessionEvent::Frame(Inbound::Text("hello".to_string())));
    assert_eq!(s, sessions[0].0);
    match a {
        SessionAction::Relay(m) => {
            assert!(hub.publish(m.message.clone()).is_ok());
            store.append(m);
        }
        other => panic!("expected a relay, got {:?}", other),
    }
    for (_, sub) in &sessions[1..] {
        assert_eq!(recv_text(&mut hub, *sub), Some("hello".to_string()));
        assert!(matches!(hub.recv(*sub), RecvOutcome::Empty));
    }
    assert_eq!(store.len(), 1);
    let history = store.history(1);
    assert_eq!(history.len(), 1);
    assert_eq!(history[0].chat_id, 1);
    assert_eq!(history[0].user_id, 10);
    assert_eq!(history[0].message, "hello");
}

#[test]
fn history_keeps_only_the_conversation() {
    let mut store = MessageLog::new();
    store.append(RMessage { chat_id: 1, user_id: 2, message: "a".to_string() });
    store.append(RMessage { chat_id: 2, user_id: 2, message: "b".to_string() });
    store.append(RMessage::in_default_chat(3, "c".to_string()));
    let h = store.history(1);
    assert_eq!(h.len(), 2);
    assert_eq!(h[0].message, "a");
    assert_eq!(h[1].message, "c");
    assert_eq!(h[1].user_id, 3);
    assert_eq!(store.history(2).len(), 1);
    assert_eq!(store.history(9).len(), 0);
}
