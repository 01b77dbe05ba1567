//! The broker-transport contract: the queue and exchange declarations the
//! gateway makes, and the pool parameters it connects with.
//!
//! The transport itself (connections, channels, publishing) is I/O and
//! lives outside the library; these values fix what that code declares.

use vstd::prelude::*;

verus! {

/// One queue declaration.
pub struct QueueSpec {
    pub name: &'static str,
    pub durable: bool,
    pub exclusive: bool,
    pub auto_delete: bool,
}

/// One exchange declaration.
pub struct ExchangeSpec {
    pub name: &'static str,
    pub fanout: bool,
    pub durable: bool,
    pub auto_delete: bool,
}

/// The request topic: durable, shared, and kept across consumers, so
/// published envelopes survive until a worker takes them.
pub fn request_queue_spec() -> (r: QueueSpec)
    ensures
        r.name@ == "http.requests"@,
        r.durable,
        !r.exclusive,
        !r.auto_delete,
{
    QueueSpec { name: "http.requests", durable: true, exclusive: false, auto_delete: false }
}

/// The response topic: a durable fanout exchange, so every gateway
/// instance sees every response and filters by correlation id.
pub fn response_exchange_spec() -> (r: ExchangeSpec)
    ensures
        r.name@ == "http.responses"@,
        r.fanout,
        r.durable,
        !r.auto_delete,
{
    ExchangeSpec { name: "http.responses", fanout: true, durable: true, auto_delete: false }
}

/// Each instance's private response queue: broker-named (empty name) and
/// auto-deleted when the instance goes away.
pub fn response_queue_spec() -> (r: QueueSpec)
    ensures
        r.name@.len() == 0,
        !r.durable,
        !r.exclusive,
        r.auto_delete,
{
    proof {
        reveal_strlit("");
    }
    QueueSpec { name: "", durable: false, exclusive: false, auto_delete: true }
}

/// The consumer prefetch: one message at a time.
pub fn prefetch_count() -> (r: u16)
    ensures
        r == 1,
{
    1
}

/// The parameters the connection pool is built with: its size cap and its
/// wait, create and recycle timeouts in seconds.
pub struct PoolConfig {
    pub max_size: usize,
    pub wait_timeout_secs: u64,
    pub create_timeout_secs: u64,
    pub recycle_timeout_secs: u64,
}

/// The gateway's pool: ten connections, bounded five-second waits, and a
/// five-minute recycle.
pub fn pool_config() -> (r: PoolConfig)
    ensures
        r.max_size == 10,
        r.wait_timeout_secs == 5,
        r.create_timeout_secs == 5,
        r.recycle_timeout_secs == 300,
{
    PoolConfig { max_size: 10, wait_timeout_secs: 5, create_timeout_secs: 5, recycle_timeout_secs: 300 }
}

/// Whether the publisher must open a channel before its next publish: it
/// publishes only over a channel it holds and that is still connected.
pub fn needs_channel(has_channel: bool, connected: bool) -> (r: bool)
    ensures
        r <==> !(has_channel && connected),
{
    !has_channel || !connected
}

} // verus!
