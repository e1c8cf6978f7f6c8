use samsa::{Broker, Event, InMemoryStorage, Message, StorageBackend};

#[test]
fn test_broker_creation() {
    let broker = Broker::new();
    assert_eq!(broker.latest_offset("test.topic"), 0);
}

#[test]
fn test_publish_single_message() {
    let mut broker = Broker::new();
    let message = Message::text("test.topic", "Hello");

    let offset = broker.publish(message).unwrap();
    assert_eq!(offset, 0);
    assert_eq!(broker.latest_offset("test.topic"), 1);
}

#[test]
fn test_publish_multiple_messages() {
    let mut broker = Broker::new();

    let offset1 = broker.publish(Message::text("test.topic", "First")).unwrap();
    let offset2 = broker.publish(Message::text("test.topic", "Second")).unwrap();
    let offset3 = broker.publish(Message::text("test.topic", "Third")).unwrap();

    assert_eq!(offset1, 0);
    assert_eq!(offset2, 1);
    assert_eq!(offset3, 2);
    assert_eq!(broker.latest_offset("test.topic"), 3);
}

#[test]
fn test_publish_to_different_topics() {
    let mut broker = Broker::new();

    let offset_a1 = broker.publish(Message::text("topic.a", "Message A1")).unwrap();
    let offset_b1 = broker.publish(Message::text("topic.b", "Message B1")).unwrap();
    let offset_a2 = broker.publish(Message::text("topic.a", "Message A2")).unwrap();

    assert_eq!(offset_a1, 0);
    assert_eq!(offset_b1, 0);
    assert_eq!(offset_a2, 1);

    assert_eq!(broker.latest_offset("topic.a"), 2);
    assert_eq!(broker.latest_offset("topic.b"), 1);
}

#[test]
fn test_fetch_events() {
    let mut broker = Broker::new();

    broker.publish(Message::text("test.topic", "First")).unwrap();
    broker.publish(Message::text("test.topic", "Second")).unwrap();
    broker.publish(Message::text("test.topic", "Third")).unwrap();

    let events = broker.fetch("test.topic", 0, 10).unwrap();
    assert_eq!(events.len(), 3);
    assert_eq!(events[0].offset, 0);
    assert_eq!(events[1].offset, 1);
    assert_eq!(events[2].offset, 2);
}

#[test]
fn test_fetch_with_offset() {
    let mut broker = Broker::new();

    broker.publish(Message::text("test.topic", "First")).unwrap();
    broker.publish(Message::text("test.topic", "Second")).unwrap();
    broker.publish(Message::text("test.topic", "Third")).unwrap();

    // Fetch from offset 1
    let events = broker.fetch("test.topic", 1, 10).unwrap();
    assert_eq!(events.len(), 2);
    assert_eq!(events[0].offset, 1);
    assert_eq!(events[1].offset, 2);
}

#[test]
fn test_fetch_with_max_events() {
    let mut broker = Broker::new();

    broker.publish(Message::text("test.topic", "First")).unwrap();
    broker.publish(Message::text("test.topic", "Second")).unwrap();
    broker.publish(Message::text("test.topic", "Third")).unwrap();

    // Fetch max 2 events
    let events = broker.fetch("test.topic", 0, 2).unwrap();
    assert_eq!(events.len(), 2);
}

#[test]
fn test_fetch_nonexistent_topic() {
    let broker = Broker::new();
    let events = broker.fetch("nonexistent", 0, 10).unwrap();
    assert_eq!(events.len(), 0);
}

#[test]
fn test_consumer_from_beginning() {
    let mut broker = Broker::new();
    broker.publish(Message::text("test.topic", "First")).unwrap();
    broker.publish(Message::text("test.topic", "Second")).unwrap();

    let mut consumer = broker.consumer_from_beginning("test.topic");
    assert_eq!(consumer.current_offset(), 0);

    let events = consumer.poll_batch(&broker, 10).unwrap();
    assert_eq!(events.len(), 2);
    assert_eq!(events[0].offset, 0);
    assert_eq!(events[1].offset, 1);
}

#[test]
fn test_default_trait() {
    let broker: Broker = Default::default();
    assert_eq!(broker.latest_offset("any.topic"), 0);
}

#[test]
fn test_fetched_events_hold_published_messages() {
    let mut broker = Broker::new();
    broker.publish(Message::keyed("t", "k", b"payload".to_vec())).unwrap();
    let events = broker.fetch("t", 0, 10).unwrap();
    assert_eq!(events.len(), 1);
    assert_eq!(events[0].message.topic, "t");
    assert_eq!(events[0].message.key.as_deref(), Some("k"));
    assert_eq!(events[0].message.value, b"payload");
}

#[test]
fn test_fetch_past_latest_offset_is_empty() {
    let mut broker = Broker::new();
    broker.publish(Message::text("t", "a")).unwrap();
    assert!(broker.fetch("t", 1, 10).unwrap().is_empty());
    assert!(broker.fetch("t", 5, 10).unwrap().is_empty());
    assert!(broker.fetch("t", u64::MAX, usize::MAX).unwrap().is_empty());
}

#[test]
fn test_fetch_zero_events() {
    let mut broker = Broker::new();
    broker.publish(Message::text("t", "a")).unwrap();
    assert!(broker.fetch("t", 0, 0).unwrap().is_empty());
}

#[test]
fn test_fetch_with_huge_max_returns_rest() {
    let mut broker = Broker::new();
    for text in ["a", "b", "c"] {
        broker.publish(Message::text("t", text)).unwrap();
    }
    let events = broker.fetch("t", 1, usize::MAX).unwrap();
    assert_eq!(events.len(), 2);
    assert_eq!(events[0].message.as_text(), Some("b"));
    assert_eq!(events[1].message.as_text(), Some("c"));
}

#[test]
fn test_consumer_starts_at_latest_offset() {
    let mut broker = Broker::new();
    broker.publish(Message::text("t", "a")).unwrap();
    broker.publish(Message::text("t", "b")).unwrap();
    let consumer = broker.consumer("t");
    assert_eq!(consumer.current_offset(), 2);
    let other = broker.consumer("other");
    assert_eq!(other.current_offset(), 0);
}

#[test]
fn test_producer_from_broker_publishes() {
    let mut broker = Broker::new();
    let producer = broker.producer();
    assert_eq!(producer.send_text(&mut broker, "t", "x").unwrap(), 0);
    assert_eq!(producer.send_text(&mut broker, "t", "y").unwrap(), 1);
    assert_eq!(broker.latest_offset("t"), 2);
}

#[test]
fn test_with_storage_keeps_existing_events() {
    let mut storage = InMemoryStorage::default();
    storage
        .append("t".to_string(), Event::new(Message::text("t", "old"), 0))
        .unwrap();
    let mut broker = Broker::with_storage(storage);
    assert_eq!(broker.latest_offset("t"), 1);
    assert_eq!(broker.publish(Message::text("t", "new")).unwrap(), 1);
    let events = broker.fetch("t", 0, 10).unwrap();
    assert_eq!(events[0].message.as_text(), Some("old"));
    assert_eq!(events[1].message.as_text(), Some("new"));
}
