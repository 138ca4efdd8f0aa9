//! Service discovery: announcement packets, the registry of known services,
//! configuration and the decision logic of the discovery component.

pub mod builder;
pub mod config;
pub mod constants;
pub mod error;
pub mod packets;
pub mod registry;
mod _impl_sync;

pub use self::_impl_sync::{lists_exactly, service_mapping, ServiceDiscovery, StartStep};
