use chat_relay::event::ServerMessage;
use chat_relay::history::ChatHistory;
use chat_relay::history::MAX_HISTORY_SIZE;

fn chat(user: &str, content: &str) -> ServerMessage {
    ServerMessage::ChatMessage(chat_relay::event::ChatMessage::new(
        user.to_string(),
        content.to_string(),
    ))
}

#[test]
fn empty_history() {
    let h = ChatHistory::new();
    assert_eq!(h.get_recent_messages().len(), 0);
}

#[test]
fn keeps_insertion_order_below_capacity() {
    let mut h = ChatHistory::new();
    h.add_message(ServerMessage::UserJoined("a".to_string()));
    h.add_message(chat("a", "hello"));
    h.add_message(ServerMessage::UserLeft("a".to_string()));
    let msgs = h.get_recent_messages();
    assert_eq!(msgs.len(), 3);
    assert_eq!(msgs[0], ServerMessage::UserJoined("a".to_string()));
    assert!(matches!(&msgs[1], ServerMessage::ChatMessage(c) if c.content == "hello"));
    assert_eq!(msgs[2], ServerMessage::UserLeft("a".to_string()));
}

#[test]
fn capacity_never_exceeded_and_oldest_evicted() {
    // 150 appends: the buffer must equal appends[50..150], in order.
    let mut h = ChatHistory::new();
    for i in 0..150u32 {
        h.add_message(ServerMessage::UserJoined(format!("user{}", i)));
        assert!(h.get_recent_messages().len() <= MAX_HISTORY_SIZE);
    }
    let msgs = h.get_recent_messages();
    assert_eq!(msgs.len(), MAX_HISTORY_SIZE);
    for (k, m) in msgs.iter().enumerate() {
        assert_eq!(*m, ServerMessage::UserJoined(format!("user{}", 50 + k)));
    }
}

#[test]
fn hundred_one_messages_evict_only_the_first() {
    // 101 sequential chat messages: length stays at 100, the 1st is
    // evicted, the 101st is present.
    let mut h = ChatHistory::new();
    for i in 1..=101u32 {
        h.add_message(chat("u", &format!("message {}", i)));
    }
    let msgs = h.get_recent_messages();
    assert_eq!(msgs.len(), 100);
    assert!(matches!(&msgs[0], ServerMessage::ChatMessage(c) if c.content == "message 2"));
    assert!(matches!(&msgs[99], ServerMessage::ChatMessage(c) if c.content == "message 101"));
    for m in &msgs {
        if let ServerMessage::ChatMessage(c) = m {
            assert_ne!(c.content, "message 1");
        }
    }
}
