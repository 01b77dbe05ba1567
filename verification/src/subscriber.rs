//! The subscriber's decision core: what to make of one delivery from the
//! response topic, and when the supervisor loop reconnects or stops.
//!
//! Every delivery is acknowledged before it is dispatched; a malformed
//! delivery (no correlation id in its metadata) is dropped after the
//! acknowledgement so it cannot poison the queue.

use crate::broker::Event;
use vstd::prelude::*;
use vstd::string::StringExecFns;

verus! {

/// Turns one acknowledged delivery into a broker event.  A delivery
/// without a correlation id is malformed and yields nothing; a missing
/// status field defaults to `500`.
pub fn classify_delivery(message_id: Option<String>, kind: Option<String>, payload: Vec<u8>) -> (r:
    Option<Event>)
    ensures
        r is None <==> message_id is None,
        message_id matches Some(id) ==> (r matches Some(e) && e.spec_id() == id@ && e.spec_data()
            == payload@ && e.spec_code() == (match kind {
            Some(k) => k@,
            None => "500"@,
        })),
{
    match message_id {
        None => None,
        Some(id) => {
            let code = match kind {
                Some(k) => k,
                None => String::from_str("500"),
            };
            Some(Event::new(id, payload, code))
        },
    }
}

/// How one consume pass over the response stream ended.
pub enum ConsumeEnd {
    ShutdownSignal,
    StreamEnded,
}

/// What the supervisor loop does next.
pub enum SupervisorDecision {
    Stop,
    Reconnect,
}

/// The supervisor's rule: stop only on the shutdown signal; a broken
/// stream (broker disconnect) is re-entered with a fresh channel.
pub fn supervise(end: ConsumeEnd) -> (r: SupervisorDecision)
    ensures
        r is Stop <==> end is ShutdownSignal,
        r is Reconnect <==> end is StreamEnded,
{
    match end {
        ConsumeEnd::ShutdownSignal => SupervisorDecision::Stop,
        ConsumeEnd::StreamEnded => SupervisorDecision::Reconnect,
    }
}

/// One attempt to obtain a consuming channel from the pool.
pub enum ConnectAttempt {
    PoolFailed,
    ChannelFailed,
    Connected,
}

/// The connection loop's rule: keep retrying until a channel is open.
pub fn connection_ready(a: ConnectAttempt) -> (r: bool)
    ensures
        r <==> a is Connected,
{
    match a {
        ConnectAttempt::Connected => true,
        ConnectAttempt::PoolFailed => false,
        ConnectAttempt::ChannelFailed => false,
    }
}

/// The fixed pause before each connection attempt, in milliseconds.
pub fn reconnect_backoff_ms() -> (r: u64)
    ensures
        r == 250,
{
    250
}

} // verus!
