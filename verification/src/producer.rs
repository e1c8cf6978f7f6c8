//! Producers: the sending side of the broker.

use vstd::prelude::*;

use crate::broker::{published, Broker};
use crate::error::SamsaError;
use crate::message::{Message, MessageView};
use crate::storage::{log_of, StorageBackend};

verus! {

/// Sends messages into a broker.
pub struct Producer {}

impl Producer {
    /// A producer for `broker`.
    pub fn new<S: StorageBackend>(broker: &Broker<S>) -> (r: Producer) {
        Producer {}
    }

    /// Publishes `message` to `broker`; see [`Broker::publish`].
    pub fn send<S: StorageBackend>(&self, broker: &mut Broker<S>, message: Message) -> (r: Result<u64, SamsaError>)
        requires
            old(broker).wf(),
        ensures
            final(broker).wf(),
            match r {
                Ok(offset) => {
                    &&& offset == log_of(old(broker).topics(), message.topic@).len()
                    &&& final(broker).topics() == published(old(broker).topics(), message@)
                },
                Err(e) => {
                    &&& final(broker).topics() == old(broker).topics()
                    &&& old(broker).publish_outcome(message@) == Some(e)
                },
            },
            r is Ok <==> old(broker).publish_outcome(message@) is None,
            S::infallible() ==> r is Ok,
    {
        broker.publish(message)
    }

    /// Publishes a text message without a key to `topic`.
    pub fn send_text<S: StorageBackend>(&self, broker: &mut Broker<S>, topic: &str, text: &str) -> (r: Result<u64, SamsaError>)
        requires
            old(broker).wf(),
        ensures
            final(broker).wf(),
            match r {
                Ok(offset) => {
                    let m = log_of(final(broker).topics(), topic@).last().message;
                    &&& offset == log_of(old(broker).topics(), topic@).len()
                    &&& final(broker).topics() == published(old(broker).topics(), m)
                    &&& m.topic == topic@
                    &&& m.key is None
                    &&& m.value == vstd::utf8::encode_utf8(text@)
                    &&& old(broker).publish_outcome(m) is None
                },
                Err(e) => {
                    &&& final(broker).topics() == old(broker).topics()
                    &&& exists|timestamp: u64| #[trigger]
                        old(broker).publish_outcome(
                            MessageView {
                                topic: topic@,
                                key: None,
                                value: vstd::utf8::encode_utf8(text@),
                                timestamp,
                            },
                        ) == Some(e)
                },
            },
            S::infallible() ==> r is Ok,
    {
        let message = Message::text(topic, text);
        let ghost m = message@;
        let r = broker.publish(message);
        proof {
            if r is Ok {
                assert(log_of(final(broker).topics(), topic@).last().message == m);
            } else {
                assert(old(broker).publish_outcome(m) == Some(r->Err_0));
            }
        }
        r
    }

    /// Publishes a message with the partitioning key `key` to `topic`.
    pub fn send_keyed<S: StorageBackend>(
        &self,
        broker: &mut Broker<S>,
        topic: &str,
        key: &str,
        value: Vec<u8>,
    ) -> (r: Result<u64, SamsaError>)
        requires
            old(broker).wf(),
        ensures
            final(broker).wf(),
            match r {
                Ok(offset) => {
                    let m = log_of(final(broker).topics(), topic@).last().message;
                    &&& offset == log_of(old(broker).topics(), topic@).len()
                    &&& final(broker).topics() == published(old(broker).topics(), m)
                    &&& m.topic == topic@
                    &&& m.key == Some(key@)
                    &&& m.value == value@
                    &&& old(broker).publish_outcome(m) is None
                },
                Err(e) => {
                    &&& final(broker).topics() == old(broker).topics()
                    &&& exists|timestamp: u64| #[trigger]
                        old(broker).publish_outcome(
                            MessageView { topic: topic@, key: Some(key@), value: value@, timestamp },
                        ) == Some(e)
                },
            },
            S::infallible() ==> r is Ok,
    {
        let message = Message::keyed(topic, key, value);
        let ghost m = message@;
        let r = broker.publish(message);
        proof {
            if r is Ok {
                assert(log_of(final(broker).topics(), topic@).last().message == m);
            } else {
                assert(old(broker).publish_outcome(m) == Some(r->Err_0));
            }
        }
        r
    }
}

} // verus!
