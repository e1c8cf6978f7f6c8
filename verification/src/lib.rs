//! Samsa: a small publish/subscribe message broker.
//!
//! Producers publish messages to topics; the broker stores each topic's events in
//! offset order; consumers pull events from a position they keep themselves.

pub mod broker;
pub mod consumer;
pub mod error;
pub mod message;
pub mod producer;
pub mod storage;

pub use broker::Broker;
pub use consumer::Consumer;
pub use error::{Result, SamsaError};
pub use message::{current_timestamp, seconds_or_zero, Event, EventView, Message, MessageView};
pub use producer::Producer;
pub use storage::{InMemoryStorage, StorageBackend};
