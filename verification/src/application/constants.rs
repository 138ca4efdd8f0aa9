//! Sizes and intervals of the TCP transport, chosen for small devices.

use vstd::prelude::*;

verus! {

/// Bytes read from a connection at a time.
pub const TEMP_BUFFER_SIZE: usize = 32;

/// Largest partial packet kept while waiting for the rest.
pub const MAX_BUFFER_GROWTH: usize = 256;

/// Pause between two polls of a connection, in milliseconds.
pub const POLL_INTERVAL_MS: u64 = 5;

/// Capacity of the channels between the transport and the application.
pub const CHANNEL_CAPACITY: usize = 8;

/// Time given to a new outgoing connection to come up, in milliseconds.
pub const CONNECT_TIMEOUT_MS: u64 = 100;

/// How long the distributor waits for an outgoing message, in milliseconds.
pub const DISTRIBUTOR_TIMEOUT_MS: u64 = 50;

/// Largest serialized packet that is sent.
pub const MAX_PACKET_BUFFER_SIZE: usize = 512;

/// Number of client slots.
pub const MAX_CLIENTS_FIXED: usize = 8;

/// Empty reads after which a connection is polled less often.
pub const INACTIVE_READ_THRESHOLD: u8 = 10;

/// Factor by which the poll interval grows on an idle connection.
pub const INACTIVE_SLEEP_MULTIPLIER: u64 = 2;

} // verus!
