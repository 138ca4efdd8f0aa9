//! Errors of the discovery component.

use vstd::prelude::*;

use crate::text::{decimal_text, text_with_io_error, text_with_number};

verus! {

/// Errors that can occur during service discovery operations
#[derive(Debug)]
pub enum ServiceDiscoveryError {
    /// Socket is not initialized
    SocketNotInitialized,
    /// Failed to bind to socket
    BindFailed(std::io::Error),
    /// Failed to join multicast group
    MulticastJoinFailed(std::io::Error),
    /// Thread join failed
    ThreadJoinFailed,
    /// Socket operation timed out
    SocketTimeout,
    /// Service discovery is already running
    AlreadyRunning,
    /// Service discovery is not running
    NotRunning,
    /// Service ID is already in use on the network
    ServiceIdConflict(u16),
}

impl ServiceDiscoveryError {
    /// The description of the error, as its `Display` form reads.
    pub fn describe(&self) -> (s: String)
        ensures
            match self {
                ServiceDiscoveryError::SocketNotInitialized => s@ == "Socket not initialized"@,
                ServiceDiscoveryError::BindFailed(_) => s@.take(
                    "Failed to bind socket: "@.len() as int,
                ) == "Failed to bind socket: "@,
                ServiceDiscoveryError::MulticastJoinFailed(_) => s@.take(
                    "Failed to join multicast group: "@.len() as int,
                ) == "Failed to join multicast group: "@,
                ServiceDiscoveryError::ThreadJoinFailed => s@ == "Failed to join worker threads"@,
                ServiceDiscoveryError::SocketTimeout => s@ == "Socket operation timed out"@,
                ServiceDiscoveryError::AlreadyRunning => s@
                    == "Service discovery is already running"@,
                ServiceDiscoveryError::NotRunning => s@ == "Service discovery is not running"@,
                ServiceDiscoveryError::ServiceIdConflict(id) => s@ == "Service ID "@ + decimal_text(
                    *id,
                ) + " is already in use on the network"@,
            },
    {
        match self {
            ServiceDiscoveryError::SocketNotInitialized => "Socket not initialized".to_owned(),
            ServiceDiscoveryError::BindFailed(e) => text_with_io_error("Failed to bind socket: ", e),
            ServiceDiscoveryError::MulticastJoinFailed(e) => text_with_io_error(
                "Failed to join multicast group: ",
                e,
            ),
            ServiceDiscoveryError::ThreadJoinFailed => "Failed to join worker threads".to_owned(),
            ServiceDiscoveryError::SocketTimeout => "Socket operation timed out".to_owned(),
            ServiceDiscoveryError::AlreadyRunning => "Service discovery is already running".to_owned(),
            ServiceDiscoveryError::NotRunning => "Service discovery is not running".to_owned(),
            ServiceDiscoveryError::ServiceIdConflict(service_id) => text_with_number(
                "Service ID ",
                *service_id,
                " is already in use on the network",
            ),
        }
    }

    /// The underlying I/O error, for the variants that carry one.
    pub fn source(&self) -> (res: Option<&std::io::Error>)
        ensures
            match self {
                ServiceDiscoveryError::BindFailed(e) => res == Some(e),
                ServiceDiscoveryError::MulticastJoinFailed(e) => res == Some(e),
                _ => res is None,
            },
    {
        match self {
            ServiceDiscoveryError::BindFailed(e) | ServiceDiscoveryError::MulticastJoinFailed(e) => Some(e),
            _ => None,
        }
    }
}

} // verus!
