use orqos::event_buffer::{EventBuffer, Received};

#[test]
fn publish_with_no_subscribers_is_a_noop_failure() {
    let mut buf = EventBuffer::new(4);
    let r = buf.publish("ev".to_string());
    assert_eq!(r, Err("ev".to_string()));
}

#[test]
fn subscriber_receives_events_in_order() {
    let mut buf = EventBuffer::new(4);
    let mut rx = buf.subscribe();
    buf.publish("a".to_string()).unwrap();
    buf.publish("b".to_string()).unwrap();
    match buf.recv(&mut rx) {
        Received::Event(ev) => assert_eq!(ev, "a"),
        other => panic!("expected event, got {:?}", other),
    }
    match buf.recv(&mut rx) {
        Received::Event(ev) => assert_eq!(ev, "b"),
        other => panic!("expected event, got {:?}", other),
    }
    assert!(matches!(buf.recv(&mut rx), Received::Empty));
}

#[test]
fn subscriber_only_sees_events_after_subscribing() {
    let mut buf = EventBuffer::new(4);
    let mut early = buf.subscribe();
    buf.publish("before".to_string()).unwrap();
    let mut late = buf.subscribe();
    buf.publish("after".to_string()).unwrap();
    match buf.recv(&mut late) {
        Received::Event(ev) => assert_eq!(ev, "after"),
        other => panic!("expected event, got {:?}", other),
    }
    match buf.recv(&mut early) {
        Received::Event(ev) => assert_eq!(ev, "before"),
        other => panic!("expected event, got {:?}", other),
    }
}

#[test]
fn lagging_subscriber_sees_gap_not_silence() {
    let mut buf = EventBuffer::new(2);
    let mut rx = buf.subscribe();
    buf.publish("1".to_string()).unwrap();
    buf.publish("2".to_string()).unwrap();
    buf.publish("3".to_string()).unwrap();
    buf.publish("4".to_string()).unwrap();
    // Ring capacity 2: events 1 and 2 were dropped for this subscriber.
    match buf.recv(&mut rx) {
        Received::Lagged { missed } => assert_eq!(missed, 2),
        other => panic!("expected lag notice, got {:?}", other),
    }
    // After the notice the subscriber continues from the oldest retained.
    match buf.recv(&mut rx) {
        Received::Event(ev) => assert_eq!(ev, "3"),
        other => panic!("expected event, got {:?}", other),
    }
    match buf.recv(&mut rx) {
        Received::Event(ev) => assert_eq!(ev, "4"),
        other => panic!("expected event, got {:?}", other),
    }
}

#[test]
fn subscribers_consume_independently() {
    let mut buf = EventBuffer::new(8);
    let mut fast = buf.subscribe();
    let mut slow = buf.subscribe();
    buf.publish("x".to_string()).unwrap();
    buf.publish("y".to_string()).unwrap();
    match buf.recv(&mut fast) {
        Received::Event(ev) => assert_eq!(ev, "x"),
        other => panic!("expected event, got {:?}", other),
    }
    match buf.recv(&mut fast) {
        Received::Event(ev) => assert_eq!(ev, "y"),
        other => panic!("expected event, got {:?}", other),
    }
    // The slow subscriber still gets everything, in order.
    match buf.recv(&mut slow) {
        Received::Event(ev) => assert_eq!(ev, "x"),
        other => panic!("expected event, got {:?}", other),
    }
    match buf.recv(&mut slow) {
        Received::Event(ev) => assert_eq!(ev, "y"),
        other => panic!("expected event, got {:?}", other),
    }
}

#[test]
fn publish_reports_subscriber_count() {
    let mut buf = EventBuffer::new(4);
    let _a = buf.subscribe();
    let _b = buf.subscribe();
    assert_eq!(buf.receiver_count(), 2);
    assert_eq!(buf.publish("e".to_string()), Ok(2));
    buf.unsubscribe();
    assert_eq!(buf.receiver_count(), 1);
}
