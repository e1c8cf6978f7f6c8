//! Consumers: the pulling side of the broker.
//!
//! A consumer reads one topic and keeps its own position in it: each poll fetches
//! the events from that position on and moves past what it received.

use std::sync::Arc;
use vstd::prelude::*;

use crate::broker::Broker;
use crate::error::SamsaError;
use crate::message::Event;
use crate::storage::{log_of, offsets_match_positions, shared_views, window, StorageBackend};

verus! {

/// Reads the events of one topic, from a position of its own.
pub struct Consumer {
    topic: String,
    offset: u64,
}

impl Consumer {
    /// The topic the consumer reads.
    pub closed spec fn subscribed(&self) -> Seq<char> {
        self.topic@
    }

    /// The offset of the next event the consumer reads.
    pub closed spec fn position(&self) -> u64 {
        self.offset
    }

    /// A consumer of `topic` that starts at the topic's latest offset, so that it
    /// sees only what is published from now on.
    pub fn new<S: StorageBackend>(broker: &Broker<S>, topic: &str) -> (r: Consumer)
        requires
            broker.wf(),
        ensures
            r.subscribed() == topic@,
            r.position() == log_of(broker.topics(), topic@).len(),
    {
        let offset = broker.latest_offset(topic);
        Consumer { topic: topic.to_owned(), offset }
    }

    /// A consumer of `topic` that starts at offset 0.
    pub fn from_beginning<S: StorageBackend>(broker: &Broker<S>, topic: &str) -> (r: Consumer)
        ensures
            r.subscribed() == topic@,
            r.position() == 0,
    {
        Consumer { topic: topic.to_owned(), offset: 0 }
    }

    /// The offset of the next event the consumer reads.
    pub fn current_offset(&self) -> (r: u64)
        ensures
            r == self.position(),
    {
        self.offset
    }

    /// Moves the consumer to `offset`.
    pub fn seek(&mut self, offset: u64)
        ensures
            final(self).subscribed() == old(self).subscribed(),
            final(self).position() == offset,
    {
        self.offset = offset;
    }

    /// The next event of the topic, if there is one, and the consumer moves past it.
    pub fn poll<S: StorageBackend>(&mut self, broker: &Broker<S>) -> (r: Result<
        Option<Arc<Event>>,
        SamsaError,
    >)
        requires
            broker.wf(),
        ensures
            final(self).subscribed() == old(self).subscribed(),
            ({
                let log = log_of(broker.topics(), old(self).subscribed());
                let at = old(self).position() as int;
                match r {
                    Ok(Some(event)) => {
                        &&& at < log.len()
                        &&& event@ == log[at]
                        &&& final(self).position() == at + 1
                    },
                    Ok(None) => {
                        &&& at >= log.len()
                        &&& final(self).position() == at
                    },
                    Err(e) => {
                        &&& final(self).position() == at
                        &&& broker.fetch_outcome(old(self).subscribed(), at, 1) == Some(e)
                    },
                }
            }),
            r is Ok <==> broker.fetch_outcome(old(self).subscribed(), old(self).position() as int, 1) is None,
            S::infallible() ==> r is Ok,
    {
        let ghost log = log_of(broker.topics(), self.topic@);
        proof {
            broker.lemma_offsets_in_order();
            if broker.topics().contains_key(self.topic@) {
                assert(offsets_match_positions(broker.topics()[self.topic@]));
            }
        }
        match broker.fetch(self.topic.as_str(), self.offset, 1) {
            Ok(mut events) => {
                assert(shared_views(events@).len() == events@.len());
                if events.len() == 0 {
                    assert(self.offset >= log.len());
                    Ok(None)
                } else {
                    assert(self.offset < log.len());
                    assert(shared_views(events@)[0] == events@[0]@);
                    assert(shared_views(events@)[0] == log[self.offset as int]);
                    let event = events.swap_remove(0);
                    self.offset = self.offset + 1;
                    Ok(Some(event))
                }
            },
            Err(e) => Err(e),
        }
    }

    /// At most `max_events` events of the topic from the consumer's position on; the
    /// consumer moves past those it received.
    pub fn poll_batch<S: StorageBackend>(&mut self, broker: &Broker<S>, max_events: usize) -> (r: Result<
        Vec<Arc<Event>>,
        SamsaError,
    >)
        requires
            broker.wf(),
        ensures
            final(self).subscribed() == old(self).subscribed(),
            match r {
                Ok(events) => {
                    &&& shared_views(events@) == window(
                        log_of(broker.topics(), old(self).subscribed()),
                        old(self).position() as int,
                        max_events as int,
                    )
                    &&& final(self).position() == old(self).position() + events@.len()
                },
                Err(e) => {
                    &&& final(self).position() == old(self).position()
                    &&& broker.fetch_outcome(
                        old(self).subscribed(),
                        old(self).position() as int,
                        max_events as int,
                    ) == Some(e)
                },
            },
            r is Ok <==> broker.fetch_outcome(
                old(self).subscribed(),
                old(self).position() as int,
                max_events as int,
            ) is None,
            S::infallible() ==> r is Ok,
    {
        match broker.fetch(self.topic.as_str(), self.offset, max_events) {
            Ok(events) => {
                let n = events.len();
                proof {
                    let log = log_of(broker.topics(), self.topic@);
                    broker.lemma_offsets_in_order();
                    if broker.topics().contains_key(self.topic@) {
                        assert(offsets_match_positions(broker.topics()[self.topic@]));
                    }
                    assert(shared_views(events@).len() == events@.len());
                    assert(self.offset + n <= log.len() || n == 0);
                }
                self.offset = self.offset + n as u64;
                Ok(events)
            },
            Err(e) => Err(e),
        }
    }
}

} // verus!
