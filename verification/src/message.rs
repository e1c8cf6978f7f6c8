//! Messages and the events the broker makes of them.
//!
//! Messages are immutable once created and flow downward:
//! producer, then broker, then consumer.

use std::time::{Duration, SystemTime, UNIX_EPOCH};
use vstd::prelude::*;
use vstd::slice::slice_to_vec;

verus! {

/// What a [`Message`] holds, as mathematical values.
pub struct MessageView {
    pub topic: Seq<char>,
    pub key: Option<Seq<char>>,
    pub value: Seq<u8>,
    pub timestamp: u64,
}

/// What an [`Event`] holds, as mathematical values.
pub struct EventView {
    pub message: MessageView,
    pub offset: u64,
}

/// The view of an optional string.
pub open spec fn opt_str_view(s: Option<String>) -> Option<Seq<char>> {
    match s {
        Some(k) => Some(k@),
        None => None,
    }
}

/// A message flowing through the Samsa system.
#[derive(Debug, Clone)]
pub struct Message {
    pub topic: String,
    pub key: Option<String>,
    pub value: Vec<u8>,
    pub timestamp: u64,
}

impl View for Message {
    type V = MessageView;

    open spec fn view(&self) -> MessageView {
        MessageView {
            topic: self.topic@,
            key: opt_str_view(self.key),
            value: self.value@,
            timestamp: self.timestamp,
        }
    }
}

/// An event: a message together with the offset the broker gave it in its topic.
#[derive(Debug, Clone)]
pub struct Event {
    pub message: Message,
    pub offset: u64,
}

impl View for Event {
    type V = EventView;

    open spec fn view(&self) -> EventView {
        EventView { message: self.message@, offset: self.offset }
    }
}

#[verifier::external_type_specification]
#[verifier::external_body]
pub struct ExSystemTime(std::time::SystemTime);

/// `SystemTime::now`: a reading of the system clock. Nothing is claimed of it:
/// it depends on the machine and the moment of the call.
#[verifier::external_body]
fn clock_now() -> SystemTime {
    SystemTime::now()
}

/// `SystemTime::duration_since(UNIX_EPOCH)`: the time from the Unix epoch to `t`, or
/// `None` where `t` lies before the epoch (std reports an error then). Nothing more is
/// claimed: the value depends on the clock reading.
#[verifier::external_body]
fn since_unix_epoch(t: &SystemTime) -> Option<Duration> {
    match t.duration_since(UNIX_EPOCH) {
        Ok(d) => Some(d),
        Err(_) => None,
    }
}

/// `Duration::as_secs`: the whole seconds of `d`. A `Duration` is opaque here, so the
/// contract cannot relate the result to `d` and states nothing.
#[verifier::external_body]
fn whole_seconds(d: &Duration) -> u64 {
    d.as_secs()
}

/// `std::str::from_utf8`: succeeds exactly on valid UTF-8, and then the string is
/// made of those very bytes.
#[verifier::external_body]
fn str_from_utf8(bytes: &[u8]) -> (r: Option<&str>)
    ensures
        r is Some <==> vstd::utf8::valid_utf8(bytes@),
        r matches Some(s) ==> vstd::utf8::encode_utf8(s@) == bytes@,
{
    match std::str::from_utf8(bytes) {
        Ok(s) => Some(s),
        Err(_) => None,
    }
}

/// The timestamp for a clock reading: the whole seconds since the Unix epoch, or 0
/// for a reading before the epoch (`None`).
pub fn seconds_or_zero(since_epoch: Option<u64>) -> (r: u64)
    ensures
        r == match since_epoch {
            Some(secs) => secs,
            None => 0,
        },
{
    match since_epoch {
        Some(secs) => secs,
        None => 0,
    }
}

/// Seconds since the Unix epoch, by the system clock.
///
/// A clock that reads before the epoch gives 0 here, in place of a panic: this
/// library's functions do not panic.
pub fn current_timestamp() -> u64 {
    let now = clock_now();
    let since_epoch = match since_unix_epoch(&now) {
        Some(d) => Some(whole_seconds(&d)),
        None => None,
    };
    seconds_or_zero(since_epoch)
}

impl Message {
    /// A message on `topic` with an optional partitioning `key` and payload `value`,
    /// stamped with the current time.
    pub fn new(topic: &str, key: Option<String>, value: Vec<u8>) -> (r: Message)
        ensures
            r.topic@ == topic@,
            r.key == key,
            r.value@ == value@,
    {
        Self::with_timestamp(topic, key, value, current_timestamp())
    }

    /// A message on `topic` with an optional partitioning `key` and payload `value`,
    /// stamped with `timestamp`.
    pub fn with_timestamp(topic: &str, key: Option<String>, value: Vec<u8>, timestamp: u64) -> (r: Message)
        ensures
            r.topic@ == topic@,
            r.key == key,
            r.value@ == value@,
            r.timestamp == timestamp,
    {
        Message { topic: topic.to_owned(), key, value, timestamp }
    }

    /// A message without a key whose payload is the UTF-8 encoding of `text`.
    pub fn text(topic: &str, text: &str) -> (r: Message)
        ensures
            r.topic@ == topic@,
            r.key is None,
            r.value@ == vstd::utf8::encode_utf8(text@),
    {
        Self::new(topic, None, slice_to_vec(text.as_bytes()))
    }

    /// A message with the partitioning key `key`.
    pub fn keyed(topic: &str, key: &str, value: Vec<u8>) -> (r: Message)
        ensures
            r.topic@ == topic@,
            r.key matches Some(k) && k@ == key@,
            r.value@ == value@,
    {
        Self::new(topic, Some(key.to_owned()), value)
    }

    /// The payload as text: `Some` exactly when it is valid UTF-8.
    pub fn as_text(&self) -> (r: Option<&str>)
        ensures
            r is Some <==> vstd::utf8::valid_utf8(self.value@),
            r matches Some(s) ==> vstd::utf8::encode_utf8(s@) == self.value@,
    {
        str_from_utf8(self.value.as_slice())
    }
}

impl Event {
    /// The event that places `message` at `offset`.
    pub fn new(message: Message, offset: u64) -> (r: Event)
        ensures
            r.message == message,
            r.offset == offset,
    {
        Event { message, offset }
    }
}

} // verus!
