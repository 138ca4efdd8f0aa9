//! Settings of the discovery component, including services configured at fixed addresses.

use std::collections::HashMap;

use vstd::prelude::*;

use crate::addr::{IpAddr, Ipv4Addr};

verus! {

broadcast use vstd::std_specs::hash::group_hash_axioms;

/// Settings of the discovery component. Durations are in milliseconds.
#[derive(Debug, Clone)]
pub struct ServiceDiscoveryConfig {
    /// Address to bind the service discovery socket to
    pub bind_addr: Ipv4Addr,
    /// Multicast address for service discovery
    pub multicast_addr: Ipv4Addr,
    /// Port for service discovery
    pub port: u16,
    /// Interval for broadcasting service discovery messages
    pub broadcast_interval: u64,
    /// Timeout for socket operations
    pub socket_timeout: u64,
    /// Time-to-live for discovered services (removes stale entries)
    pub service_ttl: u64,
    /// Enable collision detection to avoid conflicts with other services
    pub collision_detection: bool,
    /// Static mapping of service IDs to IP addresses
    /// These entries take precedence over discovered services and are never removed
    pub static_services: HashMap<u16, IpAddr>,
}

/// The map that results from adding `services` to `m` in order, later pairs winning.
pub open spec fn insert_all(m: Map<u16, IpAddr>, services: Seq<(u16, IpAddr)>) -> Map<u16, IpAddr>
    decreases services.len(),
{
    if services.len() == 0 {
        m
    } else {
        insert_all(m, services.drop_last()).insert(services.last().0, services.last().1)
    }
}

impl Default for ServiceDiscoveryConfig {
    /// The defaults: bind to 0.0.0.0, multicast group 239.255.0.1 on port
    /// 30490, announce every second, 5 s socket timeout, 30 s service lifetime,
    /// collision detection on, no static services.
    fn default() -> (c: Self)
        ensures
            c.bind_addr == Ipv4Addr(0),
            c.multicast_addr == Ipv4Addr(0xEFFF_0001),
            c.port == 30490,
            c.broadcast_interval == 1000,
            c.socket_timeout == 5000,
            c.service_ttl == 30000,
            c.collision_detection,
            c.static_services@ == Map::<u16, IpAddr>::empty(),
    {
        Self {
            bind_addr: Ipv4Addr::new(0, 0, 0, 0),
            multicast_addr: Ipv4Addr::new(239, 255, 0, 1),
            port: 30490,
            broadcast_interval: 1000,
            socket_timeout: 5000,
            service_ttl: 30000,
            collision_detection: true,
            static_services: HashMap::new(),
        }
    }
}

impl ServiceDiscoveryConfig {
    /// The configuration with every field as `other` except the static services.
    pub open spec fn same_settings(self, other: Self) -> bool {
        &&& self.bind_addr == other.bind_addr
        &&& self.multicast_addr == other.multicast_addr
        &&& self.port == other.port
        &&& self.broadcast_interval == other.broadcast_interval
        &&& self.socket_timeout == other.socket_timeout
        &&& self.service_ttl == other.service_ttl
        &&& self.collision_detection == other.collision_detection
    }

    /// Maps `service_id` to `ip_addr`, replacing an earlier mapping.
    pub fn add_static_service(&mut self, service_id: u16, ip_addr: IpAddr) -> (r: &mut Self)
        ensures
            r.same_settings(*old(self)),
            r.static_services@ == old(self).static_services@.insert(service_id, ip_addr),
            *final(self) == *final(r),
    {
        self.static_services.insert(service_id, ip_addr);
        self
    }

    /// Adds each mapping in order; a later mapping of the same ID wins.
    pub fn add_static_services(&mut self, services: Vec<(u16, IpAddr)>) -> (r: &mut Self)
        ensures
            r.same_settings(*old(self)),
            r.static_services@ == insert_all(old(self).static_services@, services@),
            *final(self) == *final(r),
    {
        let mut i: usize = 0;
        while i < services.len()
            invariant
                i <= services@.len(),
                self.same_settings(*old(self)),
                self.static_services@ == insert_all(
                    old(self).static_services@,
                    services@.take(i as int),
                ),
            decreases services@.len() - i,
        {
            let (service_id, ip_addr) = services[i];
            self.static_services.insert(service_id, ip_addr);
            assert(services@.take(i + 1).drop_last() =~= services@.take(i as int));
            i = i + 1;
        }
        assert(services@.take(i as int) =~= services@);
        self
    }

    /// Removes the mapping of `service_id`, if any.
    pub fn remove_static_service(&mut self, service_id: u16) -> (r: &mut Self)
        ensures
            r.same_settings(*old(self)),
            r.static_services@ == old(self).static_services@.remove(service_id),
            *final(self) == *final(r),
    {
        self.static_services.remove(&service_id);
        self
    }

    /// Whether `service_id` has a static mapping.
    pub fn has_static_service(&self, service_id: u16) -> (b: bool)
        ensures
            b == self.static_services@.contains_key(service_id),
    {
        self.static_services.contains_key(&service_id)
    }

    /// The static address of `service_id`, if it has one.
    pub fn get_static_service(&self, service_id: u16) -> (res: Option<IpAddr>)
        ensures
            res == if self.static_services@.contains_key(service_id) {
                Some(self.static_services@[service_id])
            } else {
                None::<IpAddr>
            },
    {
        match self.static_services.get(&service_id) {
            Some(ip) => Some(*ip),
            None => None,
        }
    }
}

} // verus!
