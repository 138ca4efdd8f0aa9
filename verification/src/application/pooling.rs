//! Connection bookkeeping of the TCP transport: the table of connected
//! clients and the framing decisions of the connection handlers.

pub mod buffer_pool;
pub mod client_registry;
pub mod tcp;
