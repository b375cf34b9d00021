use buzzer::door::{MyBuzzer, ServiceError};
use buzzer::ring::{EnqueueOutcome, Subscription, QUEUE_CAPACITY};

#[test]
fn listen_door_opens_a_fresh_subscription() {
    let b = MyBuzzer::new();
    let s = b.listen_door(true).unwrap();
    assert!(s.is_open());
    assert_eq!(s.pending_len(), 0);
    assert_eq!(s.capacity(), QUEUE_CAPACITY);
}

#[test]
fn listen_door_without_resources_is_exhausted() {
    let b = MyBuzzer::new();
    let r = b.listen_door(false);
    assert!(matches!(r, Err(ServiceError::ResourceExhausted)));
}

#[test]
fn paced_consumer_gets_one_payload_per_tick() {
    let mut s = Subscription::new(QUEUE_CAPACITY);
    for _ in 0..10 {
        assert_eq!(s.try_enqueue(), EnqueueOutcome::Accepted);
        let n = s.take_delivery().expect("one queued notification");
        assert_eq!(n.message, "hello");
    }
    assert_eq!(s.pending_len(), 0);
    assert!(s.is_open());
}

#[test]
fn deliveries_come_in_fifo_order_without_loss() {
    let mut s = Subscription::new(8);
    for _ in 0..5 {
        assert_eq!(s.try_enqueue(), EnqueueOutcome::Accepted);
    }
    assert_eq!(s.pending_len(), 5);
    let mut taken: usize = 0;
    while let Some(n) = s.take_delivery() {
        assert_eq!(n.message, "hello");
        taken += 1;
    }
    // everything queued was delivered, exactly once each
    assert_eq!(taken, 5);
    assert_eq!(s.pending_len(), 0);
}

#[test]
fn full_queue_blocks_the_producer_without_dropping() {
    let mut s = Subscription::new(3);
    assert_eq!(s.try_enqueue(), EnqueueOutcome::Accepted);
    assert_eq!(s.try_enqueue(), EnqueueOutcome::Accepted);
    assert_eq!(s.try_enqueue(), EnqueueOutcome::Accepted);
    // the queue is at its bound: the producer is blocked, nothing is lost
    assert_eq!(s.try_enqueue(), EnqueueOutcome::Blocked);
    assert_eq!(s.try_enqueue(), EnqueueOutcome::Blocked);
    assert_eq!(s.pending_len(), 3);
    // the consumer resumes: one slot frees, production goes on
    assert!(s.take_delivery().is_some());
    assert_eq!(s.try_enqueue(), EnqueueOutcome::Accepted);
    assert_eq!(s.pending_len(), 3);
}

#[test]
fn disconnect_stops_production_and_releases_the_queue() {
    let mut s = Subscription::new(4);
    assert_eq!(s.try_enqueue(), EnqueueOutcome::Accepted);
    assert_eq!(s.try_enqueue(), EnqueueOutcome::Accepted);
    s.disconnect();
    assert!(!s.is_open());
    // the queue was released with the subscription
    assert_eq!(s.pending_len(), 0);
    assert!(s.take_delivery().is_none());
    // every later producer attempt observes the disconnect and stops
    assert_eq!(s.try_enqueue(), EnqueueOutcome::Stopped);
    assert_eq!(s.try_enqueue(), EnqueueOutcome::Stopped);
    assert_eq!(s.pending_len(), 0);
}

#[test]
fn repeated_connect_disconnect_cycles_leave_nothing_behind() {
    let b = MyBuzzer::new();
    for _ in 0..50 {
        let mut s = b.listen_door(true).unwrap();
        assert_eq!(s.try_enqueue(), EnqueueOutcome::Accepted);
        s.disconnect();
        assert_eq!(s.pending_len(), 0);
        assert_eq!(s.try_enqueue(), EnqueueOutcome::Stopped);
        assert_eq!(s.pending_len(), 0);
    }
}

#[test]
fn two_subscriptions_are_independent() {
    let b = MyBuzzer::new();
    let mut s1 = b.listen_door(true).unwrap();
    let mut s2 = b.listen_door(true).unwrap();

    // interleave the two producers arbitrarily
    assert_eq!(s1.try_enqueue(), EnqueueOutcome::Accepted);
    assert_eq!(s2.try_enqueue(), EnqueueOutcome::Accepted);
    assert_eq!(s1.try_enqueue(), EnqueueOutcome::Accepted);
    s2.disconnect();
    assert_eq!(s1.try_enqueue(), EnqueueOutcome::Accepted);

    // the second subscription is closed and empty; the first is untouched
    assert_eq!(s2.try_enqueue(), EnqueueOutcome::Stopped);
    assert_eq!(s2.pending_len(), 0);
    assert!(s1.is_open());
    assert_eq!(s1.pending_len(), 3);
    for _ in 0..3 {
        let n = s1.take_delivery().expect("first subscription kept its queue");
        assert_eq!(n.message, "hello");
    }
    assert!(s1.take_delivery().is_none());
}

#[test]
fn empty_queue_delivers_nothing() {
    let mut s = Subscription::new(1);
    assert!(s.take_delivery().is_none());
    assert!(s.is_open());
}
