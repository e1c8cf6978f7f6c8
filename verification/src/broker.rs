//! The broker: assigns offsets to published messages and serves fetches.
//!
//! Storage is the single source of truth for offsets: the next offset of a topic is
//! the number of events the topic holds, so a topic's events carry the offsets
//! 0, 1, 2, ... in the order they were published.

use std::sync::Arc;
use vstd::prelude::*;

use crate::consumer::Consumer;
use crate::error::SamsaError;
use crate::message::{Event, EventView, Message, MessageView};
use crate::producer::Producer;
use crate::storage::{
    consecutive, log_of, offsets_match_positions, window, InMemoryStorage, StorageBackend,
};

verus! {

/// The event that places `message` at its topic's latest offset.
pub open spec fn next_event(topics: Map<Seq<char>, Seq<EventView>>, message: MessageView) -> EventView {
    EventView { message, offset: log_of(topics, message.topic).len() as u64 }
}

/// The topics after `message` is published: its topic's log grows by the event that
/// places the message at the topic's latest offset.
pub open spec fn published(
    topics: Map<Seq<char>, Seq<EventView>>,
    message: MessageView,
) -> Map<Seq<char>, Seq<EventView>> {
    topics.insert(message.topic, log_of(topics, message.topic).push(next_event(topics, message)))
}

/// Every event held under a topic carries that topic in its message.
pub open spec fn events_under_own_topic(topics: Map<Seq<char>, Seq<EventView>>) -> bool {
    forall|t: Seq<char>, i: int|
        #![trigger topics[t][i]]
        topics.contains_key(t) && 0 <= i < topics[t].len() ==> topics[t][i].message.topic == t
}

/// Reading back a write: right after `message` is published, a fetch of at least one
/// event from the offset it was given returns exactly the event holding it there.
pub proof fn lemma_publish_then_fetch(
    topics: Map<Seq<char>, Seq<EventView>>,
    message: MessageView,
    max: int,
)
    requires
        max >= 1,
    ensures
        ({
            let at = log_of(topics, message.topic).len();
            window(log_of(published(topics, message), message.topic), at as int, max)
                == seq![EventView { message, offset: at as u64 }]
        }),
{
    let at = log_of(topics, message.topic).len();
    let after = log_of(published(topics, message), message.topic);
    assert(after.len() == at + 1);
    assert(window(after, at as int, max) =~= seq![EventView { message, offset: at as u64 }]);
}

/// A broker starts with no events, so every event it holds sits under its own
/// topic; publishing keeps it so, since the event goes to its message's topic.
pub proof fn lemma_publish_keeps_events_under_own_topic(
    topics: Map<Seq<char>, Seq<EventView>>,
    message: MessageView,
)
    requires
        events_under_own_topic(topics),
    ensures
        events_under_own_topic(Map::<Seq<char>, Seq<EventView>>::empty()),
        events_under_own_topic(published(topics, message)),
{
    let after = published(topics, message);
    assert forall|t: Seq<char>, i: int|
        after.contains_key(t) && 0 <= i < after[t].len() implies #[trigger] after[t][i].message.topic == t by {
        if t == message.topic {
            let log = log_of(topics, t);
            if i < log.len() {
                assert(after[t][i] == log[i]);
                assert(topics.contains_key(t));
                assert(topics[t][i].message.topic == t);
            }
        } else {
            assert(after[t] == topics[t]);
        }
    }
}

/// Publishing to one topic leaves every other topic as it was.
pub proof fn lemma_publish_isolates_topics(
    topics: Map<Seq<char>, Seq<EventView>>,
    message: MessageView,
    other: Seq<char>,
)
    requires
        other != message.topic,
    ensures
        log_of(published(topics, message), other) == log_of(topics, other),
{
}

/// Publishing keeps every topic in offset order: the new event takes the next offset.
pub proof fn lemma_publish_keeps_offsets_in_order(
    topics: Map<Seq<char>, Seq<EventView>>,
    message: MessageView,
)
    requires
        consecutive(topics),
        log_of(topics, message.topic).len() < u64::MAX,
    ensures
        consecutive(published(topics, message)),
{
    let after = published(topics, message);
    assert forall|t: Seq<char>| #[trigger] after.contains_key(t) implies offsets_match_positions(
        after[t],
    ) by {
        if t != message.topic {
            assert(topics.contains_key(t));
        } else {
            let log = log_of(topics, message.topic);
            if topics.contains_key(t) {
                assert(offsets_match_positions(topics[t]));
            }
            assert forall|i: int| 0 <= i < after[t].len() implies #[trigger] after[t][i].offset == i by {
                if i < log.len() {
                    assert(after[t][i] == log[i]);
                }
            }
        }
    }
}

/// A fetch from an in-order log returns at most `max` events, carrying the offsets
/// `from`, `from + 1`, ... in that order.
pub proof fn lemma_fetched_offsets(log: Seq<EventView>, from: int, max: int)
    requires
        offsets_match_positions(log),
        from >= 0,
        max >= 0,
    ensures
        window(log, from, max).len() <= max,
        forall|k: int|
            0 <= k < window(log, from, max).len() ==> #[trigger] window(log, from, max)[k].offset
                == from + k,
{
    assert forall|k: int| 0 <= k < window(log, from, max).len() implies #[trigger] window(
        log,
        from,
        max,
    )[k].offset == from + k by {
        assert(window(log, from, max)[k] == log[from + k]);
    }
}

/// Fetching in consecutive batches, each starting where the last one ended, gives
/// the same events as one larger fetch: nothing is skipped and nothing repeated.
pub proof fn lemma_consecutive_fetches(log: Seq<EventView>, from: int, first: int, second: int)
    requires
        from >= 0,
        first >= 0,
        second >= 0,
    ensures
        ({
            let head = window(log, from, first);
            head + window(log, from + head.len(), second) == window(log, from, first + second)
        }),
{
    let head = window(log, from, first);
    let tail = window(log, from + head.len(), second);
    assert(head + tail =~= window(log, from, first + second));
}

/// Nothing lies at or past a topic's latest offset: a consumer positioned there
/// receives only what is published afterwards.
pub proof fn lemma_fetch_at_latest_is_empty(log: Seq<EventView>, max: int)
    ensures
        window(log, log.len() as int, max) == Seq::<EventView>::empty(),
{
}

/// A fetch from offset 0 of at least as many events as the topic holds returns the
/// topic's whole log.
pub proof fn lemma_fetch_all(log: Seq<EventView>, max: int)
    requires
        max >= log.len(),
    ensures
        window(log, 0, max) == log,
{
    assert(window(log, 0, max) =~= log);
}

/// The central message broker, backed by a storage backend `S`.
pub struct Broker<S: StorageBackend = InMemoryStorage> {
    storage: S,
}

impl Broker<InMemoryStorage> {
    /// A broker backed by an empty in-memory storage.
    pub fn new() -> (r: Self)
        ensures
            r.wf(),
            r.topics() == Map::<Seq<char>, Seq<EventView>>::empty(),
    {
        Self::with_storage(InMemoryStorage::default())
    }
}

impl Default for Broker<InMemoryStorage> {
    /// Same as [`Broker::new`].
    fn default() -> (r: Self)
        ensures
            r.wf(),
            r.topics() == Map::<Seq<char>, Seq<EventView>>::empty(),
    {
        Self::new()
    }
}

impl<S: StorageBackend> Broker<S> {
    /// The broker is well formed when its storage is.
    pub closed spec fn wf(&self) -> bool {
        self.storage.inv()
    }

    /// The events the broker holds for each topic.
    pub closed spec fn topics(&self) -> Map<Seq<char>, Seq<EventView>> {
        self.storage.topics()
    }

    /// The error, if any, with which publishing `message` fails: that of the storage
    /// appending the event that places `message` at its topic's latest offset.
    pub closed spec fn publish_outcome(&self, message: MessageView) -> Option<SamsaError> {
        self.storage.append_outcome(message.topic, next_event(self.storage.topics(), message))
    }

    /// The error, if any, with which a fetch fails: that of the storage's fetch.
    pub closed spec fn fetch_outcome(&self, topic: Seq<char>, from: int, max: int) -> Option<SamsaError> {
        self.storage.fetch_outcome(topic, from, max)
    }

    /// A broker backed by `storage`: it holds what the storage holds, and its
    /// operations fail exactly as the storage's do.
    pub fn with_storage(storage: S) -> (r: Self)
        requires
            storage.inv(),
        ensures
            r.wf(),
            r.topics() == storage.topics(),
            forall|message: MessageView| #[trigger]
                r.publish_outcome(message) == storage.append_outcome(
                    message.topic,
                    next_event(storage.topics(), message),
                ),
            forall|topic: Seq<char>, from: int, max: int| #[trigger]
                r.fetch_outcome(topic, from, max) == storage.fetch_outcome(topic, from, max),
    {
        Broker { storage }
    }

    /// A producer bound to this broker.
    pub fn producer(&self) -> (r: Producer) {
        Producer::new(self)
    }

    /// A consumer of `topic` that starts at the topic's latest offset.
    pub fn consumer(&self, topic: &str) -> (r: Consumer)
        requires
            self.wf(),
        ensures
            r.subscribed() == topic@,
            r.position() == log_of(self.topics(), topic@).len(),
    {
        Consumer::new(self, topic)
    }

    /// A consumer of `topic` that starts at offset 0.
    pub fn consumer_from_beginning(&self, topic: &str) -> (r: Consumer)
        ensures
            r.subscribed() == topic@,
            r.position() == 0,
    {
        Consumer::from_beginning(self, topic)
    }

    /// Publishes `message` to its topic and returns the offset it was stored at.
    ///
    /// The offset is the topic's latest offset before the call; the topic's log grows
    /// by the event holding the message at that offset, and no other topic changes.
    /// Where the storage fails, nothing changes.
    pub fn publish(&mut self, message: Message) -> (r: Result<u64, SamsaError>)
        requires
            old(self).wf(),
        ensures
            final(self).wf(),
            match r {
                Ok(offset) => {
                    &&& offset == log_of(old(self).topics(), message.topic@).len()
                    &&& final(self).topics() == published(old(self).topics(), message@)
                },
                Err(e) => {
                    &&& final(self).topics() == old(self).topics()
                    &&& old(self).publish_outcome(message@) == Some(e)
                },
            },
            r is Ok <==> old(self).publish_outcome(message@) is None,
            S::infallible() ==> r is Ok,
    {
        let topic = message.topic.clone();
        let current_offset = self.storage.latest_offset(topic.as_str());
        let event = Event::new(message, current_offset);
        match self.storage.append(topic, event) {
            Ok(()) => Ok(current_offset),
            Err(e) => Err(e),
        }
    }

    /// Fetches at most `max_events` events of `topic`, starting at offset `from_offset`.
    pub fn fetch(&self, topic: &str, from_offset: u64, max_events: usize) -> (r: Result<
        Vec<Arc<Event>>,
        SamsaError,
    >)
        requires
            self.wf(),
        ensures
            r matches Ok(events) ==> crate::storage::shared_views(events@) == window(
                log_of(self.topics(), topic@),
                from_offset as int,
                max_events as int,
            ),
            r matches Err(e) ==> self.fetch_outcome(topic@, from_offset as int, max_events as int)
                == Some(e),
            r is Ok <==> self.fetch_outcome(topic@, from_offset as int, max_events as int) is None,
            S::infallible() ==> r is Ok,
    {
        self.storage.fetch(topic, from_offset, max_events)
    }

    /// The latest offset of `topic`: the number of events it holds, which is the
    /// offset the next message published to it gets.
    pub fn latest_offset(&self, topic: &str) -> (r: u64)
        requires
            self.wf(),
        ensures
            r == log_of(self.topics(), topic@).len(),
    {
        self.storage.latest_offset(topic)
    }

    /// A well-formed broker holds every topic's events in offset order.
    pub proof fn lemma_offsets_in_order(&self)
        requires
            self.wf(),
        ensures
            consecutive(self.topics()),
    {
        self.storage.lemma_consecutive();
    }
}

} // verus!
