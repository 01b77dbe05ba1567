//! Tear-down of the logging and metrics stack.  Initialization is wiring
//! around outside crates and lives with the binary; the shutdown hook is
//! kept here so the start-up code has a stable counterpart to call.

use vstd::prelude::*;

verus! {

/// Releases nothing: the tracing and metrics stack needs no explicit
/// shutdown.  Kept as the documented pairing point for initialization.
pub fn shutdown_observability() {
}

} // verus!
