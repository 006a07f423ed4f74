use log_hub::broadcaster::{Broadcaster, Received, CHANNEL_CAPACITY};
use log_hub::messages::BroadcastLog;

fn log(text: &str, is_error: bool) -> BroadcastLog {
    BroadcastLog::new(text.to_string(), is_error)
}

fn next(hub: &mut Broadcaster, id: u64) -> Option<String> {
    match hub.receive(id) {
        Received::Frame(m) => Some(m.0),
        Received::Empty => None,
        Received::Gone => panic!("subscriber {id} is gone"),
    }
}

#[test]
fn membership_follows_last_call() {
    let mut hub = Broadcaster::new();
    hub.connect(1);
    hub.connect(2);
    hub.connect(3);
    hub.disconnect(2);
    hub.disconnect(2);
    hub.connect(4);
    hub.disconnect(4);
    hub.connect(2);
    hub.disconnect(9);
    assert!(hub.is_subscribed(1));
    assert!(hub.is_subscribed(2));
    assert!(hub.is_subscribed(3));
    assert!(!hub.is_subscribed(4));
    assert!(!hub.is_subscribed(9));
    assert_eq!(hub.subscriber_count(), 3);
}

#[test]
fn count_follows_membership() {
    let mut hub = Broadcaster::new();
    assert_eq!(hub.subscriber_count(), 0);
    hub.connect(8);
    hub.connect(8);
    assert_eq!(hub.subscriber_count(), 1);
    hub.connect(9);
    assert_eq!(hub.subscriber_count(), 2);
    hub.disconnect(8);
    hub.disconnect(8);
    assert_eq!(hub.subscriber_count(), 1);
}

#[test]
fn unsubscribe_absent_keeps_others() {
    let mut hub = Broadcaster::new();
    hub.connect(1);
    hub.connect(2);
    hub.broadcast(&log("a", false));
    hub.disconnect(7);
    hub.disconnect(2);
    hub.disconnect(2);
    assert!(hub.is_subscribed(1));
    assert!(!hub.is_subscribed(2));
    assert_eq!(next(&mut hub, 1), Some("[OUT]: a".to_string()));
    assert_eq!(next(&mut hub, 1), None);
    assert!(matches!(hub.receive(2), Received::Gone));
}

#[test]
fn publish_reaches_every_subscriber_once() {
    let mut hub = Broadcaster::new();
    for id in 10..15u64 {
        hub.connect(id);
    }
    hub.broadcast(&log("hello", false));
    for id in 10..15u64 {
        assert_eq!(next(&mut hub, id), Some("[OUT]: hello".to_string()));
        assert_eq!(next(&mut hub, id), None);
    }
}

#[test]
fn full_queue_loses_the_frame_for_good() {
    let mut hub = Broadcaster::new();
    hub.connect(1);
    hub.connect(2);
    for k in 0..CHANNEL_CAPACITY {
        hub.broadcast(&log(&format!("line {k}"), false));
    }
    for _ in 0..CHANNEL_CAPACITY {
        assert!(next(&mut hub, 2).is_some());
    }
    hub.broadcast(&log("late", true));
    for k in 0..CHANNEL_CAPACITY {
        assert_eq!(next(&mut hub, 1), Some(format!("[OUT]: line {k}")));
    }
    assert_eq!(next(&mut hub, 1), None);
    assert_eq!(next(&mut hub, 2), Some("[ERR]: late".to_string()));
    assert_eq!(next(&mut hub, 2), None);
}

#[test]
fn lines_of_one_stream_keep_their_order() {
    let mut hub = Broadcaster::new();
    hub.connect(5);
    hub.broadcast(&log("L1", false));
    hub.broadcast(&log("E1", true));
    hub.broadcast(&log("L2", false));
    hub.broadcast(&log("L3", false));
    let got: Vec<String> = (0..4).map(|_| next(&mut hub, 5).unwrap()).collect();
    let out: Vec<&String> = got.iter().filter(|s| s.starts_with("[OUT]: ")).collect();
    assert_eq!(out, vec!["[OUT]: L1", "[OUT]: L2", "[OUT]: L3"]);
}

#[test]
fn reconnect_starts_with_empty_queue() {
    let mut hub = Broadcaster::new();
    hub.connect(3);
    hub.broadcast(&log("old", false));
    hub.connect(3);
    assert_eq!(next(&mut hub, 3), None);
}

#[test]
fn capacity_is_sixteen() {
    assert_eq!(CHANNEL_CAPACITY, 16);
}
