use chat_relay::connection::conn_step;
use chat_relay::connection::closes_connection;
use chat_relay::connection::is_fatal;
use chat_relay::connection::ConnAction;
use chat_relay::connection::ConnEvent;
use chat_relay::connection::ConnState;
use chat_relay::connection::Connection;
use chat_relay::connection::ErrorKind;
use chat_relay::event::ServerMessage;
use chat_relay::relay::Relay;

#[test]
fn lifecycle_transitions() {
    assert_eq!(
        conn_step(ConnState::Connecting, ConnEvent::Accepted),
        (ConnState::AwaitingUsername, ConnAction::AwaitUsername)
    );
    assert_eq!(
        conn_step(ConnState::AwaitingUsername, ConnEvent::UsernameRead),
        (ConnState::Active, ConnAction::ReplayAndStart)
    );
    assert_eq!(
        conn_step(ConnState::Active, ConnEvent::RecordDecoded),
        (ConnState::Active, ConnAction::PublishChat)
    );
    assert_eq!(
        conn_step(ConnState::Active, ConnEvent::MalformedRecord),
        (ConnState::Active, ConnAction::Nothing)
    );
    for failure in [ConnEvent::ReaderClosed, ConnEvent::ReaderFailed, ConnEvent::WriterFailed] {
        assert_eq!(
            conn_step(ConnState::Active, failure),
            (ConnState::Disconnecting, ConnAction::PublishLeftAndCancel)
        );
    }
    assert_eq!(
        conn_step(ConnState::Disconnecting, ConnEvent::TornDown),
        (ConnState::Closed, ConnAction::ReleaseResources)
    );
}

#[test]
fn closed_is_terminal() {
    for e in [
        ConnEvent::Accepted,
        ConnEvent::UsernameRead,
        ConnEvent::RecordDecoded,
        ConnEvent::MalformedRecord,
        ConnEvent::ReaderClosed,
        ConnEvent::ReaderFailed,
        ConnEvent::WriterFailed,
        ConnEvent::TornDown,
    ] {
        assert_eq!(conn_step(ConnState::Closed, e), (ConnState::Closed, ConnAction::Nothing));
    }
}

#[test]
fn error_kinds_severity() {
    assert!(is_fatal(ErrorKind::StartupError));
    assert!(!is_fatal(ErrorKind::ConnectionError));
    assert!(!is_fatal(ErrorKind::ProtocolError));
    assert!(closes_connection(ErrorKind::ConnectionError));
    assert!(!closes_connection(ErrorKind::ProtocolError));
    assert!(!closes_connection(ErrorKind::StartupError));
}

#[test]
fn alice_and_bob_scenario() {
    // alice connects, then bob; alice sends "hi"; bob receives the chat
    // record, alice receives nothing for her own message; the buffer
    // holds [Joined(alice), Joined(bob), Chat(alice, "hi")].
    let mut relay = Relay::new();
    let (alice, alice_replay) = Connection::establish(&mut relay, b"alice\n");
    assert_eq!(alice.state(), ConnState::Active);
    assert_eq!(alice_replay.len(), 0);

    let (bob, bob_replay) = Connection::establish(&mut relay, b"bob\n");
    assert_eq!(bob_replay.len(), 1);
    assert_eq!(
        String::from_utf8(bob_replay[0].clone()).unwrap(),
        "{\"type\":\"system\",\"content\":\"User alice joined the chat\"}\n"
    );

    alice.on_record(&mut relay, b"hi");

    // Bob's queue: his own join (filtered out), then alice's chat.
    assert_eq!(bob.poll_outgoing(&mut relay), None);
    let chat = bob.poll_outgoing(&mut relay).expect("bob must receive alice's chat line");
    let chat = String::from_utf8(chat).unwrap();
    assert!(chat.starts_with(
        "{\"type\":\"ChatMessage\",\"data\":{\"user_id\":\"alice\",\"content\":\"hi\",\"timestamp\":\""
    ));
    assert!(chat.ends_with("\"}}\n"));
    assert_eq!(bob.poll_outgoing(&mut relay), None);

    // Alice's queue: her own join (filtered), bob's join (delivered),
    // her own chat (filtered), then nothing.
    assert_eq!(alice.poll_outgoing(&mut relay), None);
    assert_eq!(
        String::from_utf8(alice.poll_outgoing(&mut relay).unwrap()).unwrap(),
        "{\"type\":\"system\",\"content\":\"User bob joined the chat\"}\n"
    );
    assert_eq!(alice.poll_outgoing(&mut relay), None);
    assert_eq!(alice.poll_outgoing(&mut relay), None);

    let history = relay.recent_history();
    assert_eq!(history.len(), 3);
    assert_eq!(history[0], ServerMessage::UserJoined("alice".to_string()));
    assert_eq!(history[1], ServerMessage::UserJoined("bob".to_string()));
    assert!(
        matches!(&history[2], ServerMessage::ChatMessage(c) if c.user_id == "alice" && c.content == "hi")
    );
}

#[test]
fn own_events_are_never_echoed_back() {
    // A connection never receives its own chat, join or leave back.
    let mut relay = Relay::new();
    let (alice, _) = Connection::establish(&mut relay, b"alice\n");
    alice.on_record(&mut relay, b"one");
    alice.on_record(&mut relay, b"two");
    // Queue: own join, own chat, own chat: every poll filters.
    assert_eq!(alice.poll_outgoing(&mut relay), None);
    assert_eq!(alice.poll_outgoing(&mut relay), None);
    assert_eq!(alice.poll_outgoing(&mut relay), None);
    assert_eq!(alice.poll_outgoing(&mut relay), None);
}

#[test]
fn disconnect_announces_leave_to_others() {
    let mut relay = Relay::new();
    let (alice, _) = Connection::establish(&mut relay, b"alice\n");
    let (mut bob, _) = Connection::establish(&mut relay, b"bob\n");
    bob.disconnect(&mut relay);
    assert_eq!(bob.state(), ConnState::Closed);
    // Alice sees bob's join and bob's leave.
    assert_eq!(alice.poll_outgoing(&mut relay), None);
    assert_eq!(
        String::from_utf8(alice.poll_outgoing(&mut relay).unwrap()).unwrap(),
        "{\"type\":\"system\",\"content\":\"User bob joined the chat\"}\n"
    );
    assert_eq!(
        String::from_utf8(alice.poll_outgoing(&mut relay).unwrap()).unwrap(),
        "{\"type\":\"system\",\"content\":\"User bob left the chat\"}\n"
    );
    let history = relay.recent_history();
    assert_eq!(history[2], ServerMessage::UserLeft("bob".to_string()));
}

#[test]
fn invalid_utf8_in_handshake_is_replaced_not_fatal() {
    let mut relay = Relay::new();
    let (conn, _) = Connection::establish(&mut relay, b"ab\xff\n");
    assert_eq!(conn.state(), ConnState::Active);
    let history = relay.recent_history();
    assert_eq!(history[0], ServerMessage::UserJoined("ab\u{fffd}".to_string()));
}

#[test]
fn empty_username_is_anonymous_not_rejected() {
    let mut relay = Relay::new();
    let (conn, _) = Connection::establish(&mut relay, b"\n");
    assert_eq!(conn.state(), ConnState::Active);
    let history = relay.recent_history();
    assert_eq!(history[0], ServerMessage::UserJoined(String::new()));
}
