//! Storage backends: where the events of each topic are kept.
//!
//! The broker depends on the [`StorageBackend`] abstraction, so the actual storage
//! system can be swapped out without touching the broker. A backend keeps, for each
//! topic, the sequence of its events in offset order: the event at index *i* of a
//! topic has offset *i*.

use std::sync::Arc;
use vstd::hash_map::StringHashMap;
use vstd::prelude::*;

use crate::error::SamsaError;
use crate::message::{Event, EventView};

verus! {

/// The events of `topic`; a topic that never received an event holds none.
pub open spec fn log_of(topics: Map<Seq<char>, Seq<EventView>>, topic: Seq<char>) -> Seq<EventView> {
    if topics.contains_key(topic) {
        topics[topic]
    } else {
        Seq::empty()
    }
}

/// The event at each index carries that index as its offset, and every offset the
/// log could hand out next fits in a `u64`.
pub open spec fn offsets_match_positions(log: Seq<EventView>) -> bool {
    &&& log.len() <= u64::MAX
    &&& forall|i: int| 0 <= i < log.len() ==> #[trigger] log[i].offset == i
}

/// Every topic's log is in offset order.
pub open spec fn consecutive(topics: Map<Seq<char>, Seq<EventView>>) -> bool {
    forall|t: Seq<char>| #[trigger] topics.contains_key(t) ==> offsets_match_positions(topics[t])
}

/// The events that a fetch of at most `max` events starting at offset `from` returns:
/// those of `log` at indices `from` up to `from + max`, as far as `log` goes.
pub open spec fn window(log: Seq<EventView>, from: int, max: int) -> Seq<EventView> {
    if from >= log.len() {
        Seq::empty()
    } else if from + max <= log.len() {
        log.subrange(from, from + max)
    } else {
        log.subrange(from, log.len() as int)
    }
}

/// The views of a sequence of shared events.
pub open spec fn shared_views(events: Seq<Arc<Event>>) -> Seq<EventView> {
    events.map_values(|e: Arc<Event>| e@)
}

/// Contract for message storage backends.
///
/// `topics()` is what the backend holds: for each topic that received events, the
/// events in offset order. `inv()` is the backend's own well-formedness.
pub trait StorageBackend: Send + Sync {
    /// The backend's internal well-formedness.
    spec fn inv(&self) -> bool;

    /// The events held for each topic.
    spec fn topics(&self) -> Map<Seq<char>, Seq<EventView>>;

    /// Whether the backend never reports an error.
    spec fn infallible() -> bool;

    /// The error, if any, with which appending `event` to `topic` fails in this state.
    spec fn append_outcome(&self, topic: Seq<char>, event: EventView) -> Option<SamsaError>;

    /// The error, if any, with which fetching at most `max` events of `topic` from
    /// offset `from` fails in this state.
    spec fn fetch_outcome(&self, topic: Seq<char>, from: int, max: int) -> Option<SamsaError>;

    /// A well-formed backend holds every topic's events in offset order.
    proof fn lemma_consecutive(&self)
        requires
            self.inv(),
        ensures
            consecutive(self.topics()),
    ;

    /// Appends `event` to `topic`. The event must carry the next offset of the topic.
    /// On success the topic's log grows by that event and no other topic changes; a
    /// failed append changes nothing.
    fn append(&mut self, topic: String, event: Event) -> (r: Result<(), SamsaError>)
        requires
            old(self).inv(),
            event.offset == log_of(old(self).topics(), topic@).len(),
        ensures
            final(self).inv(),
            r is Ok ==> final(self).topics() == old(self).topics().insert(
                topic@,
                log_of(old(self).topics(), topic@).push(event@),
            ),
            r is Err ==> final(self).topics() == old(self).topics(),
            match r {
                Ok(_) => old(self).append_outcome(topic@, event@) is None,
                Err(e) => old(self).append_outcome(topic@, event@) == Some(e),
            },
            Self::infallible() ==> r is Ok,
    ;

    /// Fetches at most `max_events` events of `topic`, starting at offset `from_offset`.
    fn fetch(&self, topic: &str, from_offset: u64, max_events: usize) -> (r: Result<
        Vec<Arc<Event>>,
        SamsaError,
    >)
        requires
            self.inv(),
        ensures
            r matches Ok(events) ==> shared_views(events@) == window(
                log_of(self.topics(), topic@),
                from_offset as int,
                max_events as int,
            ),
            match r {
                Ok(_) => self.fetch_outcome(topic@, from_offset as int, max_events as int) is None,
                Err(e) => self.fetch_outcome(topic@, from_offset as int, max_events as int)
                    == Some(e),
            },
            Self::infallible() ==> r is Ok,
    ;

    /// The latest offset of `topic`: the offset the next event appended to it gets.
    fn latest_offset(&self, topic: &str) -> (r: u64)
        requires
            self.inv(),
        ensures
            r == log_of(self.topics(), topic@).len(),
    ;
}

/// `Arc::clone`: another handle on the same allocation, so it holds the same event.
#[verifier::external_body]
fn share_event(event: &Arc<Event>) -> (r: Arc<Event>)
    ensures
        r == *event,
{
    Arc::clone(event)
}

/// The default, in-memory storage backend.
///
/// Each topic owns one slot of `logs`, found through `index`; the slot holds the
/// topic's events, the event at index *i* having offset *i*.
pub struct InMemoryStorage {
    index: StringHashMap<usize>,
    logs: Vec<Vec<Arc<Event>>>,
}

impl InMemoryStorage {
    /// The events held in slot `i`.
    closed spec fn slot(&self, i: int) -> Seq<EventView> {
        shared_views(self.logs@[i]@)
    }

    /// Slots are distinct per topic and lie within `logs`; every log is in offset order.
    pub closed spec fn wf(&self) -> bool {
        &&& forall|t: Seq<char>| #[trigger]
            self.index@.contains_key(t) ==> (self.index@[t] as int) < self.logs@.len()
        &&& forall|t1: Seq<char>, t2: Seq<char>|
            #![trigger self.index@[t1], self.index@[t2]]
            self.index@.contains_key(t1) && self.index@.contains_key(t2) && t1 != t2
                ==> self.index@[t1] != self.index@[t2]
        &&& forall|t: Seq<char>| #[trigger]
            self.index@.contains_key(t) ==> offsets_match_positions(
                self.slot(self.index@[t] as int),
            )
    }

    /// The events held for each topic.
    pub closed spec fn model(&self) -> Map<Seq<char>, Seq<EventView>> {
        Map::new(
            |t: Seq<char>| self.index@.contains_key(t),
            |t: Seq<char>| self.slot(self.index@[t] as int),
        )
    }
}

impl Default for InMemoryStorage {
    /// An empty storage: no topic holds any event.
    fn default() -> (r: Self)
        ensures
            r.inv(),
            r.topics() == Map::<Seq<char>, Seq<EventView>>::empty(),
    {
        let r = InMemoryStorage { index: StringHashMap::new(), logs: Vec::new() };
        assert(r.model() =~= Map::<Seq<char>, Seq<EventView>>::empty());
        r
    }
}

impl StorageBackend for InMemoryStorage {
    closed spec fn inv(&self) -> bool {
        self.wf()
    }

    closed spec fn topics(&self) -> Map<Seq<char>, Seq<EventView>> {
        self.model()
    }

    open spec fn infallible() -> bool {
        true
    }

    open spec fn append_outcome(&self, topic: Seq<char>, event: EventView) -> Option<SamsaError> {
        None
    }

    open spec fn fetch_outcome(&self, topic: Seq<char>, from: int, max: int) -> Option<SamsaError> {
        None
    }

    proof fn lemma_consecutive(&self) {
        assert forall|t: Seq<char>| #[trigger] self.model().contains_key(t) implies offsets_match_positions(
            self.model()[t],
        ) by {
            assert(self.index@.contains_key(t));
        }
    }

    fn append(&mut self, topic: String, event: Event) -> (r: Result<(), SamsaError>) {
        let ghost old_self = *self;
        let ghost t = topic@;
        let ghost ev = event@;
        let slot = match self.index.get(topic.as_str()) {
            Some(i) => Some(*i),
            None => None,
        };
        match slot {
            Some(i) => {
                self.logs[i].push(Arc::new(event));
                proof {
                    assert(self.index@ == old_self.index@);
                    assert forall|u: Seq<char>| #[trigger]
                        self.index@.contains_key(u) && u != t implies self.slot(
                            self.index@[u] as int,
                        ) == old_self.slot(self.index@[u] as int) by {
                        assert(self.index@[u] != self.index@[t]);
                    }
                    assert(self.slot(i as int) =~= old_self.slot(i as int).push(ev));
                    assert(self.logs@[i as int].len() <= usize::MAX);
                    assert(self.model() =~= old_self.model().insert(
                        t,
                        log_of(old_self.model(), t).push(ev),
                    ));
                }
            },
            None => {
                let i = self.logs.len();
                let mut log: Vec<Arc<Event>> = Vec::new();
                log.push(Arc::new(event));
                self.logs.push(log);
                self.index.insert(topic, i);
                proof {
                    assert forall|u: Seq<char>| #[trigger]
                        old_self.index@.contains_key(u) implies self.slot(
                            old_self.index@[u] as int,
                        ) == old_self.slot(old_self.index@[u] as int) by {
                        assert(self.logs@[old_self.index@[u] as int] == old_self.logs@[old_self.index@[u] as int]);
                    }
                    assert(self.slot(i as int) =~= seq![ev]);
                    assert(self.model() =~= old_self.model().insert(
                        t,
                        log_of(old_self.model(), t).push(ev),
                    ));
                }
            },
        }
        Ok(())
    }

    fn fetch(&self, topic: &str, from_offset: u64, max_events: usize) -> (r: Result<
        Vec<Arc<Event>>,
        SamsaError,
    >) {
        let mut out: Vec<Arc<Event>> = Vec::new();
        let ghost log = log_of(self.model(), topic@);
        match self.index.get(topic) {
            None => {
                assert(shared_views(out@) =~= window(log, from_offset as int, max_events as int));
            },
            Some(i) => {
                let events = &self.logs[*i];
                assert(log == shared_views(events@));
                let len = events.len();
                if from_offset < len as u64 {
                    let start = from_offset as usize;
                    let end = if max_events < len - start {
                        start + max_events
                    } else {
                        len
                    };
                    let mut j = start;
                    while j < end
                        invariant
                            start <= j <= end <= len == events@.len(),
                            log == shared_views(events@),
                            shared_views(out@) =~= log.subrange(start as int, j as int),
                        decreases end - j,
                    {
                        let ghost before = out@;
                        out.push(share_event(&events[j]));
                        assert(shared_views(out@) =~= shared_views(before).push(log[j as int]));
                        j += 1;
                    }
                }
                assert(shared_views(out@) =~= window(log, from_offset as int, max_events as int));
            },
        }
        Ok(out)
    }

    fn latest_offset(&self, topic: &str) -> (r: u64) {
        match self.index.get(topic) {
            None => 0,
            Some(i) => {
                let events = &self.logs[*i];
                let ghost log = shared_views(events@);
                if events.len() == 0 {
                    0
                } else {
                    let last = &events[events.len() - 1];
                    assert(log[log.len() - 1].offset == log.len() - 1);
                    last.offset + 1
                }
            },
        }
    }
}

} // verus!
