//! Errors raised by the broker and its storage backends.
//!
//! Every variant carries a free-form detail message. How an error reads when
//! shown to a person is `label() + detail()`, computed by [`SamsaError::to_string`].

use vstd::prelude::*;
use vstd::string::StringExecFns;

verus! {

/// The error type shared by every Samsa operation.
#[derive(Debug, Clone)]
pub enum SamsaError {
    /// Configuration-related errors
    Config(String),
    /// Topic validation errors
    Topic(String),
    /// Consumer-related errors
    Consumer(String),
    /// Consumer group errors
    Group(String),
    /// Resource management errors (pools, guards, etc.)
    Resource(String),
    /// Service lifecycle errors
    Service(String),
    /// Schema and message validation errors
    Schema(String),
    /// Message routing and delivery errors
    Routing(String),
    /// Generic broker errors
    Broker(String),
    /// Connection-related errors
    Connection(String),
}

/// Results of Samsa operations.
pub type Result<T> = core::result::Result<T, SamsaError>;

impl SamsaError {
    /// The detail message the error carries.
    pub open spec fn detail(self) -> Seq<char> {
        match self {
            SamsaError::Config(m) => m@,
            SamsaError::Topic(m) => m@,
            SamsaError::Consumer(m) => m@,
            SamsaError::Group(m) => m@,
            SamsaError::Resource(m) => m@,
            SamsaError::Service(m) => m@,
            SamsaError::Schema(m) => m@,
            SamsaError::Routing(m) => m@,
            SamsaError::Broker(m) => m@,
            SamsaError::Connection(m) => m@,
        }
    }

    /// The text that introduces the detail message when the error is shown.
    pub open spec fn label(self) -> Seq<char> {
        match self {
            SamsaError::Config(_) => "Configuration error: "@,
            SamsaError::Topic(_) => "Topic validation failed: "@,
            SamsaError::Consumer(_) => "Consumer error: "@,
            SamsaError::Group(_) => "Consumer group error: "@,
            SamsaError::Resource(_) => "Resource error: "@,
            SamsaError::Service(_) => "Service error: "@,
            SamsaError::Schema(_) => "Schema validation failed: "@,
            SamsaError::Routing(_) => "Message routing failed: "@,
            SamsaError::Broker(_) => "Broker error: "@,
            SamsaError::Connection(_) => "Connection failed: "@,
        }
    }

    /// How the error reads when shown: its label followed by its detail.
    pub fn to_string(&self) -> (r: String)
        ensures
            r@ == self.label() + self.detail(),
    {
        let (label, detail) = match self {
            SamsaError::Config(m) => ("Configuration error: ", m),
            SamsaError::Topic(m) => ("Topic validation failed: ", m),
            SamsaError::Consumer(m) => ("Consumer error: ", m),
            SamsaError::Group(m) => ("Consumer group error: ", m),
            SamsaError::Resource(m) => ("Resource error: ", m),
            SamsaError::Service(m) => ("Service error: ", m),
            SamsaError::Schema(m) => ("Schema validation failed: ", m),
            SamsaError::Routing(m) => ("Message routing failed: ", m),
            SamsaError::Broker(m) => ("Broker error: ", m),
            SamsaError::Connection(m) => ("Connection failed: ", m),
        };
        label.to_owned().concat(detail.as_str())
    }

    /// Builds a configuration error carrying `msg`.
    pub fn config(msg: &str) -> (r: SamsaError)
        ensures
            r matches SamsaError::Config(m) && m@ == msg@,
    {
        SamsaError::Config(msg.to_owned())
    }

    /// Builds a topic validation error carrying `msg`.
    pub fn topic(msg: &str) -> (r: SamsaError)
        ensures
            r matches SamsaError::Topic(m) && m@ == msg@,
    {
        SamsaError::Topic(msg.to_owned())
    }

    /// Builds a consumer error carrying `msg`.
    pub fn consumer(msg: &str) -> (r: SamsaError)
        ensures
            r matches SamsaError::Consumer(m) && m@ == msg@,
    {
        SamsaError::Consumer(msg.to_owned())
    }

    /// Builds a resource error carrying `msg`.
    pub fn resource(msg: &str) -> (r: SamsaError)
        ensures
            r matches SamsaError::Resource(m) && m@ == msg@,
    {
        SamsaError::Resource(msg.to_owned())
    }

    /// Builds a service error carrying `msg`.
    pub fn service(msg: &str) -> (r: SamsaError)
        ensures
            r matches SamsaError::Service(m) && m@ == msg@,
    {
        SamsaError::Service(msg.to_owned())
    }

    /// Builds a schema validation error carrying `msg`.
    pub fn schema(msg: &str) -> (r: SamsaError)
        ensures
            r matches SamsaError::Schema(m) && m@ == msg@,
    {
        SamsaError::Schema(msg.to_owned())
    }

    /// Builds a routing error carrying `msg`.
    pub fn routing(msg: &str) -> (r: SamsaError)
        ensures
            r matches SamsaError::Routing(m) && m@ == msg@,
    {
        SamsaError::Routing(msg.to_owned())
    }

    /// Builds a generic broker error carrying `msg`.
    pub fn broker(msg: &str) -> (r: SamsaError)
        ensures
            r matches SamsaError::Broker(m) && m@ == msg@,
    {
        SamsaError::Broker(msg.to_owned())
    }

    /// Builds a connection error carrying `msg`.
    pub fn connection(msg: &str) -> (r: SamsaError)
        ensures
            r matches SamsaError::Connection(m) && m@ == msg@,
    {
        SamsaError::Connection(msg.to_owned())
    }

    /// Builds a consumer group error carrying `msg`.
    pub fn group(msg: &str) -> (r: SamsaError)
        ensures
            r matches SamsaError::Group(m) && m@ == msg@,
    {
        SamsaError::Group(msg.to_owned())
    }
}

} // verus!
