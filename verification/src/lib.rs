//! Verified core of a small service-oriented communication protocol:
//! packet formats for service discovery and remote method calls, the
//! registries that track discovered services and connected clients, and the
//! decision logic of the discovery and application layers.

pub mod addr;
pub mod application;
pub mod broadcast_application;
pub mod codec;
pub mod constants;
pub mod message;
pub mod name_discovery;
pub mod packets;
pub mod sd;
pub mod text;
pub mod utils;
