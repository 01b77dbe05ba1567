//! An HTTP-to-message-bus gateway library.
//!
//! The gateway terminates HTTP requests, packages each one into a
//! self-describing envelope, publishes the envelope to a message broker,
//! awaits a correlated response and returns it to the HTTP caller.  This
//! crate holds the verified core: the envelope codec, the in-process
//! correlation broker, the publisher and subscriber decision logic, the
//! proxy-handler protocol and the validated configuration types.  The
//! surrounding binary supplies the network I/O and the async runtime.

pub mod broker;
pub mod client_ip;
pub mod codec;
pub mod conf;
pub mod decode;
pub mod events;
pub mod extractor;
pub mod handlers;
pub mod ip;
pub mod json;
pub mod metrics;
pub mod msgpack;
pub mod observability;
pub mod publisher;
pub mod responses;
pub mod routes;
pub mod rmq;
pub mod subscriber;
pub mod types;
