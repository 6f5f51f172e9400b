use chat_relay::messages::get_message_key;
use chat_relay::messages::MessageStore;

#[test]
fn key_is_symmetric() {
    assert_eq!(get_message_key(3, 7), get_message_key(7, 3));
}

#[test]
fn key_puts_smaller_id_first() {
    assert_eq!(get_message_key(3, 7), "3_7");
    assert_eq!(get_message_key(7, 3), "3_7");
    assert_eq!(get_message_key(12, 5), "5_12");
    assert_eq!(get_message_key(4, 4), "4_4");
    assert_eq!(get_message_key(0, 4294967295), "0_4294967295");
}

#[test]
fn saved_messages_come_back_in_order() {
    let mut store = MessageStore::new();
    store.save_message(1, 2, "first".to_string());
    store.save_message(2, 1, "second".to_string());
    let msgs = store.get_messages(1, 2);
    assert_eq!(msgs.len(), 2);
    assert_eq!(msgs[0].content, "first");
    assert_eq!(msgs[0].sender_id, 1);
    assert_eq!(msgs[0].receiver_id, 2);
    assert_eq!(msgs[1].content, "second");
    assert_eq!(msgs[1].sender_id, 2);
}

#[test]
fn retrieval_ignores_id_order() {
    let mut store = MessageStore::new();
    store.save_message(3, 7, "hello".to_string());
    let forward = store.get_messages(3, 7);
    let backward = store.get_messages(7, 3);
    assert_eq!(forward.len(), 1);
    assert_eq!(backward.len(), 1);
    assert_eq!(forward[0].content, backward[0].content);
}

#[test]
fn conversations_are_separate() {
    let mut store = MessageStore::new();
    store.save_message(1, 2, "to two".to_string());
    store.save_message(1, 3, "to three".to_string());
    assert_eq!(store.get_messages(1, 2).len(), 1);
    assert_eq!(store.get_messages(1, 3).len(), 1);
    assert_eq!(store.get_messages(2, 3).len(), 0);
}
