//! Concrete instances of the laws that the library proves.

use samsa::{Broker, Message};

#[test]
fn test_law_read_back_what_was_published() {
    let mut broker = Broker::new();
    broker.publish(Message::text("t", "a")).unwrap();
    let offset = broker.publish(Message::keyed("t", "k", b"z".to_vec())).unwrap();
    let events = broker.fetch("t", offset, 3).unwrap();
    assert_eq!(events.len(), 1);
    assert_eq!(events[0].offset, offset);
    assert_eq!(events[0].message.key.as_deref(), Some("k"));
    assert_eq!(events[0].message.value, b"z");
}

#[test]
fn test_law_publish_isolates_topics() {
    let mut broker = Broker::new();
    broker.publish(Message::text("a", "1")).unwrap();
    let before = broker.fetch("a", 0, 10).unwrap();
    broker.publish(Message::text("b", "2")).unwrap();
    let after = broker.fetch("a", 0, 10).unwrap();
    assert_eq!(before.len(), after.len());
    assert_eq!(after[0].message.as_text(), Some("1"));
    assert_eq!(broker.latest_offset("a"), 1);
}

#[test]
fn test_law_offsets_follow_positions() {
    let mut broker = Broker::new();
    for i in 0..6u64 {
        assert_eq!(broker.publish(Message::text("t", "x")).unwrap(), i);
    }
    let events = broker.fetch("t", 2, 3).unwrap();
    let offsets: Vec<u64> = events.iter().map(|e| e.offset).collect();
    assert_eq!(offsets, vec![2, 3, 4]);
}

#[test]
fn test_law_consecutive_batches() {
    let mut broker = Broker::new();
    for text in ["a", "b", "c", "d", "e"] {
        broker.publish(Message::text("t", text)).unwrap();
    }
    let whole = broker.fetch("t", 1, 5).unwrap();
    let mut consumer = broker.consumer_from_beginning("t");
    consumer.seek(1);
    let mut pieces = consumer.poll_batch(&broker, 2).unwrap();
    pieces.extend(consumer.poll_batch(&broker, 3).unwrap());
    let whole_texts: Vec<_> = whole.iter().map(|e| e.message.as_text()).collect();
    let piece_texts: Vec<_> = pieces.iter().map(|e| e.message.as_text()).collect();
    assert_eq!(whole_texts, piece_texts);
    assert_eq!(consumer.current_offset(), 5);
}

#[test]
fn test_law_fetch_at_latest_is_empty() {
    let mut broker = Broker::new();
    broker.publish(Message::text("t", "a")).unwrap();
    let latest = broker.latest_offset("t");
    assert!(broker.fetch("t", latest, 10).unwrap().is_empty());
}

#[test]
fn test_law_fetch_all() {
    let mut broker = Broker::new();
    for text in ["a", "b", "c"] {
        broker.publish(Message::text("t", text)).unwrap();
    }
    let events = broker.fetch("t", 0, 3).unwrap();
    let texts: Vec<_> = events.iter().map(|e| e.message.as_text().unwrap()).collect();
    assert_eq!(texts, vec!["a", "b", "c"]);
}

#[test]
fn test_poll_on_empty_topic_keeps_position() {
    let broker = Broker::new();
    let mut consumer = broker.consumer_from_beginning("t");
    assert!(consumer.poll(&broker).unwrap().is_none());
    assert_eq!(consumer.current_offset(), 0);
    assert!(consumer.poll_batch(&broker, 4).unwrap().is_empty());
    assert_eq!(consumer.current_offset(), 0);
}

#[test]
fn test_seek_past_end_then_poll() {
    let mut broker = Broker::new();
    broker.publish(Message::text("t", "a")).unwrap();
    let mut consumer = broker.consumer_from_beginning("t");
    consumer.seek(u64::MAX);
    assert!(consumer.poll(&broker).unwrap().is_none());
    assert_eq!(consumer.current_offset(), u64::MAX);
}
