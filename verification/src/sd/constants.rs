//! Limits and intervals of the discovery component.

use vstd::prelude::*;

verus! {

/// Number of services the registry can track at once.
pub const SD_MAX_TRACKED_SERVICES: usize = 8;

/// Size of the buffer a discovery datagram is received into.
pub const SD_RECV_BUFFER_SIZE: usize = 64;

/// Pause between two polls of the discovery socket, in milliseconds.
pub const POLL_INTERVAL_MS: u64 = 10;

/// Interval between two sweeps for stale services, in milliseconds.
pub const CLEANUP_INTERVAL_MS: u64 = 1000;

/// How long to listen for a competing announcement before starting, in milliseconds.
pub const CONFLICT_CHECK_TIMEOUT_MS: u64 = 1000;

} // verus!
