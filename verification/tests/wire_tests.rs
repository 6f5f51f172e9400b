use chat_relay::event::ChatMessage;
use chat_relay::event::ServerMessage;
use chat_relay::wire::encode_message;
use chat_relay::wire::LineFramer;

#[test]
fn joined_and_left_records() {
    let joined = encode_message(&ServerMessage::UserJoined("carol".to_string()));
    assert_eq!(
        String::from_utf8(joined).unwrap(),
        "{\"type\":\"system\",\"content\":\"User carol joined the chat\"}\n"
    );
    let left = encode_message(&ServerMessage::UserLeft("carol".to_string()));
    assert_eq!(
        String::from_utf8(left).unwrap(),
        "{\"type\":\"system\",\"content\":\"User carol left the chat\"}\n"
    );
}

#[test]
fn chat_record_with_epoch_timestamp() {
    let m = ServerMessage::ChatMessage(ChatMessage {
        user_id: "alice".to_string(),
        content: "hi".to_string(),
        timestamp: 0,
    });
    assert_eq!(
        String::from_utf8(encode_message(&m)).unwrap(),
        "{\"type\":\"ChatMessage\",\"data\":{\"user_id\":\"alice\",\"content\":\"hi\",\"timestamp\":\"1970-01-01T00:00:00+00:00\"}}\n"
    );
}

#[test]
fn chat_record_escapes_content() {
    let m = ServerMessage::ChatMessage(ChatMessage {
        user_id: "a".to_string(),
        content: "q\"b\\s\nn\tt\rr\u{1}u".to_string(),
        timestamp: 0,
    });
    let line = String::from_utf8(encode_message(&m)).unwrap();
    assert_eq!(
        line,
        "{\"type\":\"ChatMessage\",\"data\":{\"user_id\":\"a\",\"content\":\"q\\\"b\\\\s\\nn\\tt\\rr\\u0001u\",\"timestamp\":\"1970-01-01T00:00:00+00:00\"}}\n"
    );
}

#[test]
fn framer_reassembles_split_records() {
    // A record may arrive split across reads.
    let mut f = LineFramer::new();
    f.push_bytes(b"hel");
    assert_eq!(f.next_record(), None);
    f.push_bytes(b"lo\nwor");
    assert_eq!(f.next_record(), Some(b"hello".to_vec()));
    assert_eq!(f.next_record(), None);
    f.push_bytes(b"ld\n");
    assert_eq!(f.next_record(), Some(b"world".to_vec()));
    assert_eq!(f.next_record(), None);
}

#[test]
fn framer_splits_batched_records() {
    // Multiple records may arrive in one read.
    let mut f = LineFramer::new();
    f.push_bytes(b"one\ntwo\nthree\nfour");
    assert_eq!(f.next_record(), Some(b"one".to_vec()));
    assert_eq!(f.next_record(), Some(b"two".to_vec()));
    assert_eq!(f.next_record(), Some(b"three".to_vec()));
    assert_eq!(f.next_record(), None);
}

#[test]
fn framer_handles_empty_records() {
    let mut f = LineFramer::new();
    f.push_bytes(b"\n\nx\n");
    assert_eq!(f.next_record(), Some(Vec::new()));
    assert_eq!(f.next_record(), Some(Vec::new()));
    assert_eq!(f.next_record(), Some(b"x".to_vec()));
}
