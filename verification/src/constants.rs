//! Protocol-wide defaults and packet prefixes.

use vstd::prelude::*;

verus! {

/// Default port of the broadcast discovery protocol.
pub const DEFAULT_PORT: u16 = 8765;

/// Default time to wait for a discovery reply, in milliseconds.
pub const DEFAULT_TIMEOUT_MS: u64 = 1000;

/// Default number of discovery attempts.
pub const DEFAULT_RETRIES: u32 = 3;

/// Default pause between discovery attempts, in milliseconds.
pub const DEFAULT_RETRY_DELAY_MS: u64 = 200;

/// Largest datagram the broadcast protocol reads.
pub const MAX_PACKET_SIZE: usize = 1024;

/// First two bytes of a discovery request.
pub const SD_REQUEST_PREFIX: u16 = 0x1234;

/// First two bytes of a discovery response.
pub const SD_RESPONSE_PREFIX: u16 = 0x4321;

/// First two bytes of an application packet on the broadcast socket.
pub const APP_PREFIX: u16 = 0xbabe;

} // verus!
