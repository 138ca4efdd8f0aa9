//! Settings of a service application.

use vstd::prelude::*;

use crate::addr::IpAddr;
use crate::sd::config::ServiceDiscoveryConfig;

verus! {

/// Settings of a service application. Durations are in milliseconds.
#[derive(Clone)]
pub struct ServiceApplicationConfig {
    pub bind_addr: IpAddr,
    pub port: u16,
    pub discovery_config: ServiceDiscoveryConfig,
    /// Timeout for method calls
    pub method_call_timeout: u64,
    /// Maximum number of open requests at a time
    pub max_open_requests: usize,
    /// Timeout for subscriptions
    pub subscription_timeout: u64,
    /// Interval to sleep between processing requests
    pub sleep_interval: u64,
    /// Interval to check for request timeouts
    pub request_timeout_check_interval: u64,
    /// Maximum number of sockets to open
    pub max_sockets: usize,
    /// Maximum number of clients that can connect
    pub max_clients: usize,
}

impl Default for ServiceApplicationConfig {
    /// Port 5678 on 0.0.0.0, default discovery settings, 5 s method calls,
    /// 16 open requests, 1 s subscriptions, 10 ms processing pause, timeouts
    /// checked every second, 8 sockets and 8 clients.
    fn default() -> (c: Self)
        ensures
            c.bind_addr == IpAddr::V4(0),
            c.port == 5678,
            c.discovery_config.port == 30490,
            c.discovery_config.static_services@ == Map::<u16, IpAddr>::empty(),
            c.method_call_timeout == 5000,
            c.max_open_requests == 16,
            c.subscription_timeout == 1000,
            c.sleep_interval == 10,
            c.request_timeout_check_interval == 1000,
            c.max_sockets == 8,
            c.max_clients == 8,
    {
        Self {
            bind_addr: IpAddr::V4(0),
            port: 5678,
            discovery_config: ServiceDiscoveryConfig::default(),
            method_call_timeout: 5000,
            max_open_requests: 16,
            subscription_timeout: 1000,
            sleep_interval: 10,
            request_timeout_check_interval: 1000,
            max_sockets: 8,
            max_clients: 8,
        }
    }
}

} // verus!
