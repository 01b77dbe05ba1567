//! The gateway's metrics: plain counters over requests and bus calls.
//! The exporter that serves them is outside the library; these are the
//! counting rules it reads from.

use vstd::prelude::*;
use vstd::string::StringExecFns;

verus! {

/// The counters the gateway keeps.  Durations accumulate in milliseconds;
/// every counter saturates instead of wrapping.
pub struct AppMetrics {
    pub http_requests_total: u64,
    pub http_request_duration_ms: u64,
    pub http_active_connections: u64,
    pub nats_requests_total: u64,
    pub nats_request_duration_ms: u64,
    pub nats_errors_total: u64,
}

/// `a + b`, stopping at the counter ceiling.
pub open spec fn sat_add(a: u64, b: u64) -> u64 {
    if a + b <= u64::MAX {
        (a + b) as u64
    } else {
        u64::MAX
    }
}

/// Adds with saturation at the counter ceiling.
fn add_sat(a: u64, b: u64) -> (r: u64)
    ensures
        r == sat_add(a, b),
{
    if b <= u64::MAX - a {
        a + b
    } else {
        u64::MAX
    }
}

impl AppMetrics {
    /// All counters at zero.
    pub fn new() -> (r: AppMetrics)
        ensures
            r.http_requests_total == 0,
            r.http_request_duration_ms == 0,
            r.http_active_connections == 0,
            r.nats_requests_total == 0,
            r.nats_request_duration_ms == 0,
            r.nats_errors_total == 0,
    {
        AppMetrics {
            http_requests_total: 0,
            http_request_duration_ms: 0,
            http_active_connections: 0,
            nats_requests_total: 0,
            nats_request_duration_ms: 0,
            nats_errors_total: 0,
        }
    }

    /// Counts one finished HTTP request and its elapsed time.
    pub fn record_http_request(&mut self, _method: &str, _route: &str, _status: u16, duration_ms: u64)
        ensures
            final(self).http_requests_total == sat_add(old(self).http_requests_total, 1),
            final(self).http_request_duration_ms == sat_add(
                old(self).http_request_duration_ms,
                duration_ms,
            ),
            final(self).http_active_connections == old(self).http_active_connections,
            final(self).nats_requests_total == old(self).nats_requests_total,
            final(self).nats_request_duration_ms == old(self).nats_request_duration_ms,
            final(self).nats_errors_total == old(self).nats_errors_total,
    {
        self.http_requests_total = add_sat(self.http_requests_total, 1);
        self.http_request_duration_ms = add_sat(self.http_request_duration_ms, duration_ms);
    }

    /// Counts one bus round trip; a failed one also counts as an error.
    pub fn record_nats_request(&mut self, _subject: &str, success: bool, duration_ms: u64)
        ensures
            final(self).nats_requests_total == sat_add(old(self).nats_requests_total, 1),
            final(self).nats_request_duration_ms == sat_add(
                old(self).nats_request_duration_ms,
                duration_ms,
            ),
            final(self).nats_errors_total == if success {
                old(self).nats_errors_total
            } else {
                sat_add(old(self).nats_errors_total, 1)
            },
            final(self).http_requests_total == old(self).http_requests_total,
            final(self).http_request_duration_ms == old(self).http_request_duration_ms,
            final(self).http_active_connections == old(self).http_active_connections,
    {
        self.nats_requests_total = add_sat(self.nats_requests_total, 1);
        self.nats_request_duration_ms = add_sat(self.nats_request_duration_ms, duration_ms);
        if !success {
            self.nats_errors_total = add_sat(self.nats_errors_total, 1);
        }
    }

    /// Business metrics are not collected; the hook records nothing.
    pub fn record_business_operation(&self, _operation_type: &str, _entity: &str)
    {
    }

    /// The fixed exposition text served while no exporter is attached.
    pub fn render(&self) -> (r: String)
        ensures
            r@ == "# HELP http_requests_total Total HTTP requests\n# TYPE http_requests_total counter\nhttp_requests_total 0\n"@,
    {
        String::from_str(
            "# HELP http_requests_total Total HTTP requests\n# TYPE http_requests_total counter\nhttp_requests_total 0\n",
        )
    }
}

} // verus!
