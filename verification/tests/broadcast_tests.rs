use pipewire_web_remote::broadcast::{EventBroadcaster, Received, ServerEvent};

fn ev(id: u32) -> ServerEvent {
    ServerEvent::DeviceRemoved(id)
}

#[test]
fn fairness_fast_and_slow_subscribers() {
    let mut b = EventBroadcaster::with_capacity(4);
    let fast = b.subscribe();
    let slow = b.subscribe();

    let mut fast_seen: Vec<u32> = Vec::new();
    for i in 0..10u32 {
        b.send(ev(i));
        // The fast subscriber always drains.
        match b.recv(fast) {
            Received::Event(ServerEvent::DeviceRemoved(id)) => fast_seen.push(id),
            other => panic!("fast subscriber got {:?}", other),
        }
        assert_eq!(b.recv(fast), Received::Empty);
    }
    // The fast subscriber received every notification, in order, no loss.
    assert_eq!(fast_seen, (0..10).collect::<Vec<u32>>());

    // The slow subscriber first learns exactly how many it missed...
    assert_eq!(b.recv(slow), Received::Lagged(6));
    // ...then receives the retained notifications, oldest first.
    for i in 6..10u32 {
        assert_eq!(b.recv(slow), Received::Event(ev(i)));
    }
    assert_eq!(b.recv(slow), Received::Empty);
}

#[test]
fn ordering_preserved_for_each_subscriber() {
    let mut b = EventBroadcaster::with_capacity(1000);
    let s = b.subscribe();
    for i in 0..50u32 {
        b.send(ev(i));
    }
    for i in 0..50u32 {
        assert_eq!(b.recv(s), Received::Event(ev(i)));
    }
    assert_eq!(b.recv(s), Received::Empty);
}

#[test]
fn send_with_no_subscribers_is_a_noop() {
    let mut b = EventBroadcaster::new();
    b.send(ev(1));
    let s = b.subscribe();
    // A subscription sees only what is sent after it is opened.
    assert_eq!(b.recv(s), Received::Empty);
    b.send(ev(2));
    assert_eq!(b.recv(s), Received::Event(ev(2)));
}

#[test]
fn unsubscribed_slot_is_skipped() {
    let mut b = EventBroadcaster::with_capacity(4);
    let s1 = b.subscribe();
    let s2 = b.subscribe();
    b.send(ev(1));
    b.unsubscribe(s1);
    b.send(ev(2));
    assert_eq!(b.recv(s2), Received::Event(ev(1)));
    assert_eq!(b.recv(s2), Received::Event(ev(2)));
}

#[test]
fn lag_counts_each_drop() {
    let mut b = EventBroadcaster::with_capacity(2);
    let s = b.subscribe();
    for i in 0..5u32 {
        b.send(ev(i));
    }
    // Three of five were dropped; the two newest remain.
    assert_eq!(b.recv(s), Received::Lagged(3));
    assert_eq!(b.recv(s), Received::Event(ev(3)));
    assert_eq!(b.recv(s), Received::Event(ev(4)));
    assert_eq!(b.recv(s), Received::Empty);
}
