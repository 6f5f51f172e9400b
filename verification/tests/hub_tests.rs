use chat_relay::event::ServerMessage;
use chat_relay::hub::Hub;
use chat_relay::relay::Relay;

fn joined(user: &str) -> ServerMessage {
    ServerMessage::UserJoined(user.to_string())
}

#[test]
fn receiver_subscribed_before_first_publish_sees_all_in_order() {
    // A receiver subscribed before publish #1 observes exactly N events,
    // in publish order.
    let mut hub = Hub::new();
    let rx = hub.subscribe();
    let n = 10u32;
    for i in 0..n {
        hub.publish(joined(&format!("user{}", i)));
    }
    let mut seen = Vec::new();
    while let Some(m) = hub.recv(rx) {
        seen.push(m);
    }
    assert_eq!(seen.len(), n as usize);
    for (k, m) in seen.iter().enumerate() {
        assert_eq!(*m, joined(&format!("user{}", k)));
    }
}

#[test]
fn late_subscriber_misses_earlier_publishes() {
    let mut hub = Hub::new();
    hub.publish(joined("early"));
    let rx = hub.subscribe();
    hub.publish(joined("late"));
    assert_eq!(hub.recv(rx), Some(joined("late")));
    assert_eq!(hub.recv(rx), None);
}

#[test]
fn unsubscribed_receiver_gets_nothing_more() {
    let mut hub = Hub::new();
    let rx = hub.subscribe();
    hub.publish(joined("a"));
    hub.unsubscribe(rx);
    hub.publish(joined("b"));
    assert_eq!(hub.recv(rx), None);
}

#[test]
fn full_queue_drops_oldest_undelivered() {
    // The per-receiver queue holds 32 events; the publisher never blocks,
    // the oldest undelivered event goes first.
    let mut hub = Hub::new();
    let rx = hub.subscribe();
    for i in 0..40u32 {
        hub.publish(joined(&format!("user{}", i)));
    }
    let mut seen = Vec::new();
    while let Some(m) = hub.recv(rx) {
        seen.push(m);
    }
    assert_eq!(seen.len(), 32);
    for (k, m) in seen.iter().enumerate() {
        assert_eq!(*m, joined(&format!("user{}", 8 + k)));
    }
}

#[test]
fn snapshot_and_subscribe_no_gap_no_duplicate() {
    // Concatenating the snapshot with all subsequently delivered events
    // yields the whole publish sequence: no gap, no duplicate.
    let mut relay = Relay::new();
    for i in 0..5u32 {
        relay.publish(joined(&format!("before{}", i)));
    }
    let (snapshot, rx) = relay.snapshot_and_subscribe();
    for i in 0..5u32 {
        relay.publish(joined(&format!("after{}", i)));
    }
    let mut all = snapshot;
    while let Some(m) = relay.recv(rx) {
        all.push(m);
    }
    assert_eq!(all.len(), 10);
    for (k, m) in all.iter().enumerate() {
        let expected = if k < 5 {
            format!("before{}", k)
        } else {
            format!("after{}", k - 5)
        };
        assert_eq!(*m, joined(&expected));
    }
}

#[test]
fn has_pending_tracks_the_queue() {
    let mut relay = Relay::new();
    let (_snapshot, rx) = relay.snapshot_and_subscribe();
    assert!(!relay.has_pending(rx));
    relay.publish(joined("a"));
    assert!(relay.has_pending(rx));
    assert_eq!(relay.recv(rx), Some(joined("a")));
    assert!(!relay.has_pending(rx));
}

#[test]
fn publish_reaches_every_active_receiver_in_same_order() {
    let mut hub = Hub::new();
    let rx1 = hub.subscribe();
    let rx2 = hub.subscribe();
    hub.publish(joined("a"));
    hub.publish(joined("b"));
    assert_eq!(hub.recv(rx1), Some(joined("a")));
    assert_eq!(hub.recv(rx2), Some(joined("a")));
    assert_eq!(hub.recv(rx1), Some(joined("b")));
    assert_eq!(hub.recv(rx2), Some(joined("b")));
}
