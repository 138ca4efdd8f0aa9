//! Errors of the application layer and its health and activity figures.

use vstd::prelude::*;

use crate::codec::DecodeError;
use crate::text::{decimal_text, text_with_io_error, text_with_number};

verus! {

/// Application-specific error types
#[derive(Debug)]
pub enum ServiceApplicationError {
    /// Service discovery is not initialized
    ServiceDiscoveryNotInitialized,
    /// Failed to connect to a service
    ConnectionFailed { service_id: u16, source: std::io::Error },
    /// Service not found
    ServiceNotFound(u16),
    /// Network operation failed
    NetworkError(std::io::Error),
    /// Serialization/deserialization error
    SerializationError(DecodeError),
    /// Channel communication error
    ChannelError(String),
    /// Configuration error
    ConfigError(String),
}

/// What caused an application error.
pub enum ErrorCause<'a> {
    Io(&'a std::io::Error),
    Decode(&'a DecodeError),
}

/// The text `prefix` followed by `rest`.
fn joined(prefix: &str, rest: &str) -> (s: String)
    ensures
        s@ == prefix@ + rest@,
{
    let mut s = String::from_str(prefix);
    s.append(rest);
    s
}

impl ServiceApplicationError {
    /// The description of the error, as its `Display` form reads.
    pub fn describe(&self) -> (s: String)
        ensures
            match self {
                ServiceApplicationError::ServiceDiscoveryNotInitialized => s@
                    == "Service discovery component is not initialized"@,
                ServiceApplicationError::ConnectionFailed { service_id, .. } => {
                    let prefix = "Failed to connect to service "@ + decimal_text(*service_id) + ": "@;
                    prefix.len() <= s@.len() && s@.take(prefix.len() as int) == prefix
                },
                ServiceApplicationError::ServiceNotFound(id) => s@ == "Service with ID "@
                    + decimal_text(*id) + " not found"@,
                ServiceApplicationError::NetworkError(_) => s@.take(
                    "Network operation failed: "@.len() as int,
                ) == "Network operation failed: "@,
                ServiceApplicationError::SerializationError(_) => s@.take(
                    "Serialization error: "@.len() as int,
                ) == "Serialization error: "@,
                ServiceApplicationError::ChannelError(msg) => s@ == "Channel communication error: "@
                    + msg@,
                ServiceApplicationError::ConfigError(msg) => s@ == "Configuration error: "@ + msg@,
            },
    {
        match self {
            ServiceApplicationError::ServiceDiscoveryNotInitialized => {
                "Service discovery component is not initialized".to_owned()
            },
            ServiceApplicationError::ConnectionFailed { service_id, source } => {
                let prefix = text_with_number("Failed to connect to service ", *service_id, ": ");
                text_with_io_error(prefix.as_str(), source)
            },
            ServiceApplicationError::ServiceNotFound(id) => text_with_number(
                "Service with ID ",
                *id,
                " not found",
            ),
            ServiceApplicationError::NetworkError(e) => text_with_io_error(
                "Network operation failed: ",
                e,
            ),
            ServiceApplicationError::SerializationError(e) => {
                let what = match e {
                    DecodeError::UnexpectedEnd => "unexpected end of input",
                    DecodeError::EmptyInput => "empty input",
                    DecodeError::UnknownMessageType(_) => "unknown message type",
                };
                joined("Serialization error: ", what)
            },
            ServiceApplicationError::ChannelError(msg) => joined(
                "Channel communication error: ",
                msg.as_str(),
            ),
            ServiceApplicationError::ConfigError(msg) => joined(
                "Configuration error: ",
                msg.as_str(),
            ),
        }
    }

    /// The underlying error, for the variants that carry one.
    pub fn source(&self) -> (res: Option<ErrorCause<'_>>)
        ensures
            match self {
                ServiceApplicationError::ConnectionFailed { source, .. } => res matches Some(
                    ErrorCause::Io(e),
                ) && e == source,
                ServiceApplicationError::NetworkError(inner) => res matches Some(ErrorCause::Io(e))
                    && e == inner,
                ServiceApplicationError::SerializationError(inner) => res matches Some(
                    ErrorCause::Decode(e),
                ) && e == inner,
                _ => res is None,
            },
    {
        match self {
            ServiceApplicationError::ConnectionFailed { source, .. } => Some(ErrorCause::Io(source)),
            ServiceApplicationError::NetworkError(e) => Some(ErrorCause::Io(e)),
            ServiceApplicationError::SerializationError(e) => Some(ErrorCause::Decode(e)),
            _ => None,
        }
    }
}

impl From<std::io::Error> for ServiceApplicationError {
    fn from(error: std::io::Error) -> (e: Self) {
        ServiceApplicationError::NetworkError(error)
    }
}

impl vstd::std_specs::convert::FromSpecImpl<std::io::Error> for ServiceApplicationError {
    open spec fn obeys_from_spec() -> bool {
        true
    }

    open spec fn from_spec(error: std::io::Error) -> Self {
        ServiceApplicationError::NetworkError(error)
    }
}

/// Health status of the service application
#[derive(Debug, Clone, PartialEq)]
pub enum ServiceHealth {
    Healthy,
    Degraded { reason: String },
    Unhealthy { reason: String },
}

/// Service application metrics
#[derive(Debug, Default, Clone)]
pub struct ServiceMetrics {
    pub active_connections: usize,
    pub total_requests: u64,
    pub failed_requests: u64,
    pub total_events_sent: u64,
    pub open_subscriptions: usize,
}

} // verus!
