//! The application layer: remote method calls and events between services.

pub mod config;
pub mod constants;
pub mod error;
pub mod message;
pub mod pooling;
pub mod serializable;
pub mod _impl_sync;
