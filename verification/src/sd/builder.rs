//! Step-by-step construction of a discovery component with custom settings.

use vstd::prelude::*;

use crate::addr::{IpAddr, Ipv4Addr};
use crate::sd::config::ServiceDiscoveryConfig;
use crate::sd::ServiceDiscovery;

verus! {

/// Collects the settings of a discovery component, starting from the defaults.
pub struct ServiceDiscoveryBuilder {
    service_id: u16,
    config: ServiceDiscoveryConfig,
}

impl ServiceDiscoveryBuilder {
    /// The service ID the component will announce.
    pub closed spec fn spec_service_id(&self) -> u16 {
        self.service_id
    }

    /// The settings collected so far.
    pub closed spec fn spec_config(&self) -> ServiceDiscoveryConfig {
        self.config
    }

    /// A builder for `service_id` with the default settings.
    pub fn new(service_id: u16) -> (b: Self)
        ensures
            b.spec_service_id() == service_id,
            b.spec_config().bind_addr == Ipv4Addr(0),
            b.spec_config().multicast_addr == Ipv4Addr(0xEFFF_0001),
            b.spec_config().port == 30490,
            b.spec_config().broadcast_interval == 1000,
            b.spec_config().socket_timeout == 5000,
            b.spec_config().service_ttl == 30000,
            b.spec_config().collision_detection,
            b.spec_config().static_services@ == Map::<u16, IpAddr>::empty(),
    {
        Self { service_id, config: ServiceDiscoveryConfig::default() }
    }

    /// Sets the address the discovery socket binds to.
    pub fn bind_addr(self, addr: Ipv4Addr) -> (b: Self)
        ensures
            b.spec_service_id() == self.spec_service_id(),
            b.spec_config() == (ServiceDiscoveryConfig { bind_addr: addr, ..self.spec_config() }),
    {
        let mut b = self;
        b.config.bind_addr = addr;
        b
    }

    /// Sets the multicast group announcements go to.
    pub fn multicast_addr(self, addr: Ipv4Addr) -> (b: Self)
        ensures
            b.spec_service_id() == self.spec_service_id(),
            b.spec_config() == (ServiceDiscoveryConfig { multicast_addr: addr, ..self.spec_config() }),
    {
        let mut b = self;
        b.config.multicast_addr = addr;
        b
    }

    /// Sets the discovery port.
    pub fn port(self, port: u16) -> (b: Self)
        ensures
            b.spec_service_id() == self.spec_service_id(),
            b.spec_config() == (ServiceDiscoveryConfig { port, ..self.spec_config() }),
    {
        let mut b = self;
        b.config.port = port;
        b
    }

    /// Sets the time between two announcements, in milliseconds.
    pub fn broadcast_interval(self, interval: u64) -> (b: Self)
        ensures
            b.spec_service_id() == self.spec_service_id(),
            b.spec_config() == (ServiceDiscoveryConfig {
                broadcast_interval: interval,
                ..self.spec_config()
            }),
    {
        let mut b = self;
        b.config.broadcast_interval = interval;
        b
    }

    /// Sets the socket timeout, in milliseconds.
    pub fn socket_timeout(self, timeout: u64) -> (b: Self)
        ensures
            b.spec_service_id() == self.spec_service_id(),
            b.spec_config() == (ServiceDiscoveryConfig { socket_timeout: timeout, ..self.spec_config() }),
    {
        let mut b = self;
        b.config.socket_timeout = timeout;
        b
    }

    /// Sets how long a discovered service stays known without announcing
    /// itself, in milliseconds.
    pub fn service_ttl(self, ttl: u64) -> (b: Self)
        ensures
            b.spec_service_id() == self.spec_service_id(),
            b.spec_config() == (ServiceDiscoveryConfig { service_ttl: ttl, ..self.spec_config() }),
    {
        let mut b = self;
        b.config.service_ttl = ttl;
        b
    }

    /// The discovery component with the collected settings.
    pub fn build(self) -> (sd: ServiceDiscovery)
        ensures
            sd.wf(),
            sd.spec_service_id() == self.spec_service_id(),
            sd.spec_config() == self.spec_config(),
            sd.known() == Map::<u16, crate::sd::registry::ServiceInfo>::empty(),
            !sd.initialized() && !sd.running() && !sd.has_workers(),
    {
        ServiceDiscovery::with_config(self.service_id, self.config)
    }
}

impl ServiceDiscovery {
    /// A builder for a discovery component announcing `service_id`.
    pub fn builder(service_id: u16) -> (b: ServiceDiscoveryBuilder)
        ensures
            b.spec_service_id() == service_id,
            b.spec_config().port == 30490,
            b.spec_config().static_services@ == Map::<u16, IpAddr>::empty(),
    {
        ServiceDiscoveryBuilder::new(service_id)
    }
}

} // verus!
