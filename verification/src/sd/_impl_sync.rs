//! The discovery component's state and decisions: which services are known,
//! where a service is found, what to announce, and how received
//! announcements change what is known. Sockets, threads and the clock are
//! driven by the caller, which hands in received datagrams and the current
//! time in milliseconds of a monotonic clock.

use vstd::prelude::*;

use crate::addr::IpAddr;
use crate::sd::config::ServiceDiscoveryConfig;
use crate::codec::DecodeError;
use crate::sd::constants::{CLEANUP_INTERVAL_MS, SD_MAX_TRACKED_SERVICES};
use crate::sd::error::ServiceDiscoveryError;
use crate::sd::packets::ServiceDiscoveryMessage;
use crate::sd::registry::{
    announced, configured, fresh_services, loaded, withdrawn, ServiceInfo, ServiceRegistry,
};

verus! {

broadcast use vstd::std_specs::hash::group_hash_axioms;

/// What `start` has to do next.
#[derive(Debug, Clone, Copy, PartialEq, Eq, Structural)]
pub enum StartStep {
    /// Discovery already runs; nothing to do.
    AlreadyRunning,
    /// Listen for announcements of this service's ID by others before launching.
    CheckConflicts,
    /// Launch the receiving and announcing workers.
    Launch,
}

/// The state of the discovery component of one service.
pub struct ServiceDiscovery {
    service_id: u16,
    config: ServiceDiscoveryConfig,
    services_registry: ServiceRegistry,
    /// The socket is bound.
    socket_bound: bool,
    /// The receiving and announcing workers exist.
    workers: bool,
    /// The workers are told to keep running.
    server_running: bool,
}

/// The addresses by which services are found: static mappings, and for the
/// other services, where they were last seen.
pub open spec fn service_mapping(statics: Map<u16, IpAddr>, known: Map<u16, ServiceInfo>) -> Map<
    u16,
    IpAddr,
> {
    Map::new(
        |id: u16| statics.contains_key(id) || known.contains_key(id),
        |id: u16|
            if statics.contains_key(id) {
                statics[id]
            } else {
                known[id].ip
            },
    )
}

/// `pairs` lists the entries of `m`, each service ID once.
pub open spec fn lists_exactly(pairs: Seq<(u16, IpAddr)>, m: Map<u16, IpAddr>) -> bool {
    &&& forall|k: int|
        0 <= k < pairs.len() ==> m.contains_key(#[trigger] pairs[k].0) && m[pairs[k].0] == pairs[k].1
    &&& forall|id: u16| #[trigger]
        m.contains_key(id) ==> exists|k: int| 0 <= k < pairs.len() && #[trigger] pairs[k].0 == id
    &&& forall|k1: int, k2: int|
        0 <= k1 < pairs.len() && 0 <= k2 < pairs.len() && k1 != k2 ==> #[trigger] pairs[k1].0
            != #[trigger] pairs[k2].0
}

/// Holds of the pairs whose service has no mapping in `statics`.
pub open spec fn unmapped(statics: Map<u16, IpAddr>) -> spec_fn((u16, IpAddr)) -> bool {
    |p: (u16, IpAddr)| !statics.contains_key(p.0)
}

impl ServiceDiscovery {
    /// What starting does next: nothing while running, a conflict check or
    /// the launch once the socket is bound, and `None` (refused) before.
    pub open spec fn start_plan(self) -> Option<StartStep> {
        if self.running() {
            Some(StartStep::AlreadyRunning)
        } else if !self.initialized() {
            None
        } else if self.spec_config().collision_detection {
            Some(StartStep::CheckConflicts)
        } else {
            Some(StartStep::Launch)
        }
    }

    /// Whether `datagram` announces that this component's service ID is offered.
    pub open spec fn offers_own_id(self, datagram: Seq<u8>) -> bool {
        ServiceDiscoveryMessage::spec_from_bytes(datagram) == Ok::<ServiceDiscoveryMessage, DecodeError>(
            ServiceDiscoveryMessage::OfferService(self.spec_service_id()),
        )
    }

    /// Whether none of the datagrams heard offers this component's service ID.
    pub open spec fn conflict_free(self, heard: Seq<Vec<u8>>) -> bool {
        forall|k: int| 0 <= k < heard.len() ==> !self.offers_own_id(#[trigger] heard[k]@)
    }

    /// The discovered services with their addresses, in the order of the
    /// registry's slots.
    pub closed spec fn discovered_in_slot_order(self) -> Seq<(u16, IpAddr)> {
        self.services_registry.active_in_slot_order()
    }

    /// The registry is well formed.
    pub closed spec fn wf(self) -> bool {
        self.services_registry.wf()
    }

    /// The services learnt from announcements (and loaded static ones).
    pub closed spec fn known(self) -> Map<u16, ServiceInfo> {
        self.services_registry@
    }

    /// This component's service ID.
    pub closed spec fn spec_service_id(self) -> u16 {
        self.service_id
    }

    /// The configuration.
    pub closed spec fn spec_config(self) -> ServiceDiscoveryConfig {
        self.config
    }

    /// The socket is bound.
    pub closed spec fn initialized(self) -> bool {
        self.socket_bound
    }

    /// The workers are running.
    pub closed spec fn running(self) -> bool {
        self.server_running
    }

    /// The workers exist.
    pub closed spec fn has_workers(self) -> bool {
        self.workers
    }

    /// A component with default settings.
    pub fn new(service_id: u16) -> (sd: Self)
        ensures
            sd.wf(),
            sd.spec_service_id() == service_id,
            sd.known() == Map::<u16, ServiceInfo>::empty(),
            !sd.initialized() && !sd.running() && !sd.has_workers(),
    {
        Self::with_config(service_id, ServiceDiscoveryConfig::default())
    }

    /// A component with the given settings.
    pub fn with_config(service_id: u16, config: ServiceDiscoveryConfig) -> (sd: Self)
        ensures
            sd.wf(),
            sd.spec_service_id() == service_id,
            sd.spec_config() == config,
            sd.known() == Map::<u16, ServiceInfo>::empty(),
            !sd.initialized() && !sd.running() && !sd.has_workers(),
    {
        Self {
            service_id,
            config,
            services_registry: ServiceRegistry::new(),
            socket_bound: false,
            workers: false,
            server_running: false,
        }
    }

    /// This component's service ID.
    pub fn service_id(&self) -> (id: u16)
        ensures
            id == self.spec_service_id(),
    {
        self.service_id
    }

    /// The configuration.
    pub fn config(&self) -> (c: &ServiceDiscoveryConfig)
        ensures
            *c == self.spec_config(),
    {
        &self.config
    }

    /// Whether the socket is bound.
    pub fn is_initialized(&self) -> (b: bool)
        ensures
            b == self.initialized(),
    {
        self.socket_bound
    }

    /// Whether the workers are running.
    pub fn is_running(&self) -> (b: bool)
        ensures
            b == self.running(),
    {
        self.server_running
    }

    /// Forgets discovered services not announced within the configured lifetime.
    pub fn cleanup_stale_services(&mut self, now: u64)
        requires
            old(self).wf(),
        ensures
            final(self).wf(),
            final(self).known() == fresh_services(old(self).known(), old(self).spec_config().service_ttl, now),
            final(self).spec_config() == old(self).spec_config(),
            final(self).spec_service_id() == old(self).spec_service_id(),
            final(self).initialized() == old(self).initialized(),
            final(self).running() == old(self).running(),
            final(self).has_workers() == old(self).has_workers(),
    {
        let ttl = self.config.service_ttl;
        self.services_registry.cleanup_stale(ttl, now);
    }

    /// Whether a datagram received while checking for conflicts announces
    /// that another node already offers this component's service ID.
    pub fn is_conflicting_announcement(&self, datagram: &[u8]) -> (b: bool)
        ensures
            b == (ServiceDiscoveryMessage::spec_from_bytes(datagram@) == Ok::<
                ServiceDiscoveryMessage,
                crate::codec::DecodeError,
            >(ServiceDiscoveryMessage::OfferService(self.spec_service_id()))),
    {
        match ServiceDiscoveryMessage::from_bytes(datagram) {
            Ok(ServiceDiscoveryMessage::OfferService(id)) => id == self.service_id,
            _ => false,
        }
    }

    /// The outcome of a conflict check whose listening window received
    /// `datagrams`: an error naming this service's ID if any of them offers
    /// it, and an error if the socket is not bound.
    pub fn check_service_id_conflict(&self, datagrams: &Vec<Vec<u8>>) -> (res: Result<
        (),
        ServiceDiscoveryError,
    >)
        ensures
            !self.initialized() ==> res matches Err(ServiceDiscoveryError::SocketNotInitialized),
            self.initialized() ==> (res is Ok <==> forall|k: int|
                0 <= k < datagrams@.len() ==> ServiceDiscoveryMessage::spec_from_bytes(
                    #[trigger] datagrams@[k]@,
                ) != Ok::<ServiceDiscoveryMessage, crate::codec::DecodeError>(
                    ServiceDiscoveryMessage::OfferService(self.spec_service_id()),
                )),
            res is Err && self.initialized() ==> (res matches Err(
                ServiceDiscoveryError::ServiceIdConflict(id),
            ) && id == self.spec_service_id()),
            self.initialized() ==> (res is Ok <==> self.conflict_free(datagrams@)),
    {
        if !self.socket_bound {
            return Err(ServiceDiscoveryError::SocketNotInitialized);
        }
        let mut i: usize = 0;
        while i < datagrams.len()
            invariant
                i <= datagrams@.len(),
                self.initialized(),
                forall|k: int|
                    0 <= k < i ==> ServiceDiscoveryMessage::spec_from_bytes(
                        #[trigger] datagrams@[k]@,
                    ) != Ok::<ServiceDiscoveryMessage, crate::codec::DecodeError>(
                        ServiceDiscoveryMessage::OfferService(self.spec_service_id()),
                    ),
            decreases datagrams@.len() - i,
        {
            if self.is_conflicting_announcement(datagrams[i].as_slice()) {
                return Err(ServiceDiscoveryError::ServiceIdConflict(self.service_id));
            }
            i = i + 1;
        }
        Ok(())
    }

    /// The static mappings, each service ID once, in the order the map is walked.
    pub fn get_static_services(&self) -> (res: Vec<(u16, IpAddr)>)
        ensures
            lists_exactly(res@, self.spec_config().static_services@),
    {
        let statics = &self.config.static_services;
        let mut res: Vec<(u16, IpAddr)> = Vec::new();
        let ghost mut count: int = 0;
        let ghost mut done: Set<u16> = Set::empty();
        for entry in it: statics.iter()
            invariant
                it.seq().no_duplicates(),
                it.seq().len() == statics@.len(),
                count == it.index(),
                res@.len() == count,
                done.finite(),
                done.len() == count,
                forall|k: int|
                    0 <= k < it.seq().len() ==> statics@.contains_key(*#[trigger] it.seq()[k].0)
                        && statics@[*it.seq()[k].0] == *it.seq()[k].1,
                forall|k: int|
                    0 <= k < res@.len() ==> #[trigger] res@[k] == (*it.seq()[k].0, *it.seq()[k].1),
                forall|id: u16|
                    #[trigger] done.contains(id) <==> exists|k: int|
                        0 <= k < res@.len() && #[trigger] res@[k].0 == id,
                forall|k: int|
                    0 <= k < res@.len() ==> statics@.contains_key(#[trigger] res@[k].0)
                        && statics@[res@[k].0] == res@[k].1,
                forall|k1: int, k2: int|
                    0 <= k1 < res@.len() && 0 <= k2 < res@.len() && k1 != k2 ==> #[trigger] res@[k1].0
                        != #[trigger] res@[k2].0,
        {
            let (service_id, ip_addr) = entry;
            proof {
                if done.contains(*service_id) {
                    let k = choose|k: int| 0 <= k < res@.len() && #[trigger] res@[k].0 == *service_id;
                    assert(it.seq()[k] == it.seq()[it.index() as int]);
                }
            }
            let ghost old_res = res@;
            let ghost old_done = done;
            res.push((*service_id, *ip_addr));
            proof {
                count = count + 1;
                done = done.insert(*service_id);
                assert forall|id: u16| #[trigger] done.contains(id) implies exists|k: int|
                    0 <= k < res@.len() && #[trigger] res@[k].0 == id by {
                    if id == *service_id {
                        assert(res@[res@.len() - 1].0 == id);
                    } else {
                        assert(old_done.contains(id));
                        let k = choose|k: int| 0 <= k < old_res.len() && #[trigger] old_res[k].0 == id;
                        assert(res@[k] == old_res[k]);
                    }
                }
            }
        }
        proof {
            vstd::std_specs::hash::axiom_hashmap_view_finite_dom(*statics);
            assert(done.subset_of(statics@.dom()));
            vstd::set_lib::lemma_subset_equality(done, statics@.dom());
            assert forall|id: u16| #[trigger] statics@.contains_key(id) implies exists|k: int|
                0 <= k < res@.len() && #[trigger] res@[k].0 == id by {
                assert(done.contains(id));
            }
        }
        res
    }

    /// Whether `service_id` has a static mapping.
    pub fn has_static_service(&self, service_id: u16) -> (b: bool)
        ensures
            b == self.spec_config().static_services@.contains_key(service_id),
    {
        self.config.has_static_service(service_id)
    }

    /// The pairs of `discovered` whose service has no static mapping, in order.
    fn without_static(&self, discovered: &Vec<(u16, IpAddr)>) -> (res: Vec<(u16, IpAddr)>)
        requires
            forall|k1: int, k2: int|
                0 <= k1 < discovered@.len() && 0 <= k2 < discovered@.len() && k1 != k2
                    ==> #[trigger] discovered@[k1].0 != #[trigger] discovered@[k2].0,
        ensures
            forall|k: int|
                0 <= k < res@.len() ==> !self.spec_config().static_services@.contains_key(
                    #[trigger] res@[k].0,
                ) && discovered@.contains(res@[k]),
            forall|d: int|
                0 <= d < discovered@.len() && !self.spec_config().static_services@.contains_key(
                    #[trigger] discovered@[d].0,
                ) ==> res@.contains(discovered@[d]),
            forall|k1: int, k2: int|
                0 <= k1 < res@.len() && 0 <= k2 < res@.len() && k1 != k2 ==> #[trigger] res@[k1].0
                    != #[trigger] res@[k2].0,
            res@ == discovered@.filter(unmapped(self.spec_config().static_services@)),
    {
        let ghost statics = self.config.static_services@;
        let mut res: Vec<(u16, IpAddr)> = Vec::new();
        let ghost mut origin: Seq<int> = Seq::empty();
        let mut i: usize = 0;
        while i < discovered.len()
            invariant
                i <= discovered@.len(),
                statics == self.config.static_services@,
                origin.len() == res@.len(),
                forall|k1: int, k2: int|
                    0 <= k1 < discovered@.len() && 0 <= k2 < discovered@.len() && k1 != k2
                        ==> #[trigger] discovered@[k1].0 != #[trigger] discovered@[k2].0,
                forall|k: int|
                    0 <= k < res@.len() ==> 0 <= #[trigger] origin[k] < i && res@[k]
                        == discovered@[origin[k]] && !statics.contains_key(res@[k].0),
                forall|k1: int, k2: int|
                    0 <= k1 < k2 < res@.len() ==> #[trigger] origin[k1] < #[trigger] origin[k2],
                forall|d: int|
                    0 <= d < i && !statics.contains_key(#[trigger] discovered@[d].0) ==> res@.contains(
                        discovered@[d],
                    ),
                res@ == discovered@.take(i as int).filter(unmapped(statics)),
            decreases discovered@.len() - i,
        {
            proof {
                assert(discovered@.take(i + 1) =~= discovered@.take(i as int).push(discovered@[i as int]));
                discovered@.take(i as int).lemma_filter_push(discovered@[i as int], unmapped(statics));
            }
            let (service_id, ip_addr) = discovered[i];
            if !self.config.has_static_service(service_id) {
                let ghost old_res = res@;
                res.push((service_id, ip_addr));
                proof {
                    origin = origin.push(i as int);
                    assert forall|d: int|
                        0 <= d < i + 1 && !statics.contains_key(#[trigger] discovered@[d].0)
                            implies res@.contains(discovered@[d]) by {
                        if d == i as int {
                            assert(res@[res@.len() - 1] == discovered@[d]);
                        } else {
                            let k = choose|k: int| 0 <= k < old_res.len() && old_res[k] == discovered@[d];
                            assert(res@[k] == discovered@[d]);
                        }
                    }
                }
            }
            i = i + 1;
        }
        proof {
            assert(discovered@.take(discovered@.len() as int) =~= discovered@);
            assert forall|k: int| 0 <= k < res@.len() implies !statics.contains_key(
                #[trigger] res@[k].0,
            ) && discovered@.contains(res@[k]) by {
                assert(discovered@[origin[k]] == res@[k]);
            }
            assert forall|k1: int, k2: int|
                0 <= k1 < res@.len() && 0 <= k2 < res@.len() && k1 != k2 implies #[trigger] res@[k1].0
                != #[trigger] res@[k2].0 by {
                if k1 < k2 {
                    assert(origin[k1] < origin[k2]);
                } else {
                    assert(origin[k2] < origin[k1]);
                }
            }
        }
        res
    }

    /// Where each service is found: static mappings first, then the
    /// discovered services that have no static mapping, each ID once.
    pub fn get_service_mapping(&self) -> (res: Vec<(u16, IpAddr)>)
        requires
            self.wf(),
        ensures
            lists_exactly(res@, service_mapping(self.spec_config().static_services@, self.known())),
            exists|n: int|
                0 <= n <= res@.len() && (forall|k: int|
                    0 <= k < n ==> self.spec_config().static_services@.contains_key(
                        #[trigger] res@[k].0,
                    )) && #[trigger] res@.skip(n) == self.discovered_in_slot_order().filter(
                    unmapped(self.spec_config().static_services@),
                ),
    {
        let mut services = self.get_static_services();
        let discovered = self.services_registry.get_active_services();
        let mut extra = self.without_static(&discovered);
        let ghost statics = self.config.static_services@;
        let ghost known = self.services_registry@;
        let ghost target = service_mapping(statics, known);
        let ghost first = services@;
        let ghost second = extra@;
        services.append(&mut extra);
        proof {
            assert(services@ =~= first + second);
            assert(services@.skip(first.len() as int) =~= second);
            assert forall|k: int| 0 <= k < first.len() implies statics.contains_key(
                #[trigger] services@[k].0,
            ) by {
                assert(services@[k] == first[k]);
            }
            assert forall|k: int| 0 <= k < services@.len() implies target.contains_key(
                #[trigger] services@[k].0,
            ) && target[services@[k].0] == services@[k].1 by {
                if k >= first.len() {
                    let e = second[k - first.len()];
                    assert(!statics.contains_key(second[k - first.len()].0));
                    assert(discovered@.contains(e));
                    let d = choose|d: int| 0 <= d < discovered@.len() && discovered@[d] == e;
                    assert(known.contains_key(discovered@[d].0));
                } else {
                    assert(services@[k] == first[k]);
                }
            }
            assert forall|id: u16| #[trigger] target.contains_key(id) implies exists|k: int|
                0 <= k < services@.len() && #[trigger] services@[k].0 == id by {
                if statics.contains_key(id) {
                    let k = choose|k: int| 0 <= k < first.len() && #[trigger] first[k].0 == id;
                    assert(services@[k] == first[k]);
                } else {
                    let d = choose|d: int| 0 <= d < discovered@.len() && #[trigger] discovered@[d].0 == id;
                    assert(second.contains(discovered@[d]));
                    let k2 = choose|k2: int| 0 <= k2 < second.len() && second[k2] == discovered@[d];
                    assert(services@[first.len() + k2] == second[k2]);
                }
            }
            assert forall|k1: int, k2: int|
                0 <= k1 < services@.len() && 0 <= k2 < services@.len() && k1 != k2 implies #[trigger] services@[k1].0
                != #[trigger] services@[k2].0 by {
                if k1 < first.len() && k2 < first.len() {
                    assert(services@[k1] == first[k1] && services@[k2] == first[k2]);
                } else if k1 >= first.len() && k2 >= first.len() {
                    assert(services@[k1] == second[k1 - first.len()]);
                    assert(services@[k2] == second[k2 - first.len()]);
                } else if k1 < first.len() {
                    assert(statics.contains_key(first[k1].0));
                    assert(services@[k2] == second[k2 - first.len()]);
                } else {
                    assert(statics.contains_key(first[k2].0));
                    assert(services@[k1] == second[k1 - first.len()]);
                }
            }
        }
        services
    }

    /// Everything but the known services and the static mappings is as in `other`.
    pub open spec fn same_settings(self, other: Self) -> bool {
        &&& self.spec_service_id() == other.spec_service_id()
        &&& self.spec_config().same_settings(other.spec_config())
        &&& self.initialized() == other.initialized()
        &&& self.has_workers() == other.has_workers()
        &&& self.running() == other.running()
    }

    /// Maps `service_id` statically to `ip_addr`; once the socket is bound,
    /// the registry learns the mapping at once (at time `now`).
    pub fn add_static_service(&mut self, service_id: u16, ip_addr: IpAddr, now: u64)
        requires
            old(self).wf(),
        ensures
            final(self).wf(),
            final(self).same_settings(*old(self)),
            final(self).spec_config().static_services@ == old(
                self,
            ).spec_config().static_services@.insert(service_id, ip_addr),
            final(self).known() == if old(self).initialized() {
                configured(old(self).known(), service_id, ip_addr, now)
            } else {
                old(self).known()
            },
    {
        self.config.add_static_service(service_id, ip_addr);
        if self.socket_bound {
            let _ = self.services_registry.insert_static(service_id, ip_addr, now);
        }
    }

    /// Removes the static mapping of `service_id`; once the socket is bound,
    /// the registry forgets the static entry at once.
    pub fn remove_static_service(&mut self, service_id: u16)
        requires
            old(self).wf(),
        ensures
            final(self).wf(),
            final(self).same_settings(*old(self)),
            final(self).spec_config().static_services@ == old(
                self,
            ).spec_config().static_services@.remove(service_id),
            final(self).known() == if old(self).initialized() && old(self).known().contains_key(
                service_id,
            ) && old(self).known()[service_id].is_static {
                old(self).known().remove(service_id)
            } else {
                old(self).known()
            },
    {
        self.config.remove_static_service(service_id);
        if self.socket_bound {
            self.services_registry.remove_static(service_id);
        }
    }

    /// Records that the socket is bound and loads the static mappings into
    /// the registry at time `now`.
    pub fn complete_init(&mut self, now: u64)
        requires
            old(self).wf(),
        ensures
            final(self).wf(),
            final(self).initialized(),
            final(self).spec_service_id() == old(self).spec_service_id(),
            final(self).spec_config() == old(self).spec_config(),
            final(self).running() == old(self).running(),
            final(self).has_workers() == old(self).has_workers(),
            loaded(old(self).known(), old(self).spec_config().static_services@, now, final(self).known()),
    {
        self.socket_bound = true;
        if !self.config.static_services.is_empty() {
            let _ = self.services_registry.load_static_services(&self.config.static_services, now);
        } else {
            assert(self.config.static_services@ =~= Map::<u16, IpAddr>::empty());
        }
    }

    /// What starting discovery has to do: nothing if it runs, an error if
    /// the socket is not bound, otherwise a conflict check first when
    /// collision detection is on.
    pub fn start_step(&self) -> (res: Result<StartStep, ServiceDiscoveryError>)
        ensures
            self.running() ==> res == Ok::<StartStep, ServiceDiscoveryError>(StartStep::AlreadyRunning),
            !self.running() && !self.initialized() ==> res matches Err(
                ServiceDiscoveryError::SocketNotInitialized,
            ),
            !self.running() && self.initialized() ==> res == Ok::<StartStep, ServiceDiscoveryError>(
                if self.spec_config().collision_detection {
                    StartStep::CheckConflicts
                } else {
                    StartStep::Launch
                },
            ),
            self.start_plan() matches Some(step) ==> res == Ok::<StartStep, ServiceDiscoveryError>(step),
            self.start_plan() is None ==> res matches Err(ServiceDiscoveryError::SocketNotInitialized),
    {
        if self.server_running {
            return Ok(StartStep::AlreadyRunning);
        }
        if !self.socket_bound {
            return Err(ServiceDiscoveryError::SocketNotInitialized);
        }
        if self.config.collision_detection {
            Ok(StartStep::CheckConflicts)
        } else {
            Ok(StartStep::Launch)
        }
    }

    /// Records that the workers were launched.
    pub fn mark_started(&mut self)
        ensures
            final(self).running(),
            final(self).has_workers(),
            final(self).initialized() == old(self).initialized(),
            final(self).spec_service_id() == old(self).spec_service_id(),
            final(self).spec_config() == old(self).spec_config(),
            final(self).known() == old(self).known(),
            final(self).wf() == old(self).wf(),
    {
        self.server_running = true;
        self.workers = true;
    }

    /// The datagram announcing that this service is offered.
    pub fn announcement(&self) -> (bytes: [u8; 3])
        ensures
            bytes@ == ServiceDiscoveryMessage::OfferService(self.spec_service_id()).spec_to_bytes(),
    {
        ServiceDiscoveryMessage::OfferService(self.service_id).to_bytes_array()
    }

    /// Applies a datagram received from `src` at `now`: an offer records or
    /// refreshes the service, a withdrawal forgets it, anything else is ignored.
    pub fn handle_datagram(&mut self, datagram: &[u8], src: IpAddr, now: u64)
        requires
            old(self).wf(),
        ensures
            final(self).wf(),
            final(self).same_settings(*old(self)),
            final(self).spec_config() == old(self).spec_config(),
            final(self).known() == match ServiceDiscoveryMessage::spec_from_bytes(datagram@) {
                Ok(ServiceDiscoveryMessage::OfferService(id)) => announced(old(self).known(), id, src, now),
                Ok(ServiceDiscoveryMessage::StopOfferService(id)) => withdrawn(old(self).known(), id),
                Err(_) => old(self).known(),
            },
            forall|k: u16|
                !(ServiceDiscoveryMessage::spec_from_bytes(datagram@) matches Ok(m)
                    && m.spec_service_id() == k) ==> (#[trigger] final(self).known().contains_key(k)
                    == old(self).known().contains_key(k) && (old(self).known().contains_key(k)
                    ==> final(self).known()[k] == old(self).known()[k])),
            ServiceDiscoveryMessage::spec_from_bytes(datagram@) matches Ok(
                ServiceDiscoveryMessage::StopOfferService(id),
            ) ==> (final(self).known().contains_key(id) <==> (old(self).known().contains_key(id)
                && old(self).known()[id].is_static)),
    {
        match ServiceDiscoveryMessage::from_bytes(datagram) {
            Ok(ServiceDiscoveryMessage::OfferService(id)) => {
                let _ = self.services_registry.insert(id, src, now);
            },
            Ok(ServiceDiscoveryMessage::StopOfferService(id)) => {
                self.services_registry.remove(id);
            },
            Err(_) => {},
        }
    }

    /// Whether a sweep for stale services is due, `CLEANUP_INTERVAL_MS`
    /// after the last one.
    pub fn cleanup_due(last_cleanup: u64, now: u64) -> (b: bool)
        ensures
            b == (now >= last_cleanup + CLEANUP_INTERVAL_MS),
    {
        now >= last_cleanup && now - last_cleanup >= CLEANUP_INTERVAL_MS
    }

    /// The address of a service: its static mapping if it has one, else,
    /// after forgetting stale services, where it was last seen.
    pub fn find_service(&mut self, service_id: u16, now: u64) -> (res: Option<IpAddr>)
        requires
            old(self).wf(),
        ensures
            final(self).wf(),
            final(self).same_settings(*old(self)),
            final(self).spec_config() == old(self).spec_config(),
            old(self).spec_config().static_services@.contains_key(service_id) ==> res == Some(
                old(self).spec_config().static_services@[service_id],
            ) && final(self).known() == old(self).known(),
            !old(self).spec_config().static_services@.contains_key(service_id) ==> {
                &&& final(self).known() == fresh_services(
                    old(self).known(),
                    old(self).spec_config().service_ttl,
                    now,
                )
                &&& res == if final(self).known().contains_key(service_id) {
                    Some(final(self).known()[service_id].ip)
                } else {
                    None::<IpAddr>
                }
            },
    {
        if let Some(static_ip) = self.config.get_static_service(service_id) {
            return Some(static_ip);
        }
        self.cleanup_stale_services(now);
        self.services_registry.find(service_id)
    }

    /// Stops discovery: the workers are told to stop, the datagram that
    /// withdraws the service is returned when the socket is bound, and the
    /// socket is given up.
    pub fn stop(&mut self) -> (withdrawal: Option<[u8; 3]>)
        ensures
            !final(self).running(),
            !final(self).has_workers(),
            !final(self).initialized(),
            final(self).spec_service_id() == old(self).spec_service_id(),
            final(self).spec_config() == old(self).spec_config(),
            final(self).known() == old(self).known(),
            final(self).wf() == old(self).wf(),
            match withdrawal {
                Some(bytes) => old(self).initialized() && bytes@
                    == ServiceDiscoveryMessage::StopOfferService(
                    old(self).spec_service_id(),
                ).spec_to_bytes(),
                None => !old(self).initialized(),
            },
    {
        self.server_running = false;
        let withdrawal = if self.socket_bound {
            Some(ServiceDiscoveryMessage::StopOfferService(self.service_id).to_bytes_array())
        } else {
            None
        };
        self.workers = false;
        self.socket_bound = false;
        withdrawal
    }
}

/// What one component announces, another finds: after the offer datagram
/// of service `id` from `src` is handled at `now`, a lookup of `id` at the
/// same time gives `src`, unless `id` is mapped statically (the static
/// address is given then) or the registry is full of other services.
pub proof fn lemma_announced_service_found(sd: ServiceDiscovery, id: u16, src: IpAddr, now: u64)
    requires
        !(sd.known().contains_key(id) && sd.known()[id].is_static),
        sd.known().contains_key(id) || sd.known().len() < SD_MAX_TRACKED_SERVICES,
    ensures
        ServiceDiscoveryMessage::spec_from_bytes(ServiceDiscoveryMessage::OfferService(id).spec_to_bytes())
            == Ok::<ServiceDiscoveryMessage, DecodeError>(ServiceDiscoveryMessage::OfferService(id)),
        fresh_services(announced(sd.known(), id, src, now), sd.spec_config().service_ttl, now).contains_key(id),
        fresh_services(announced(sd.known(), id, src, now), sd.spec_config().service_ttl, now)[id].ip == src,
        service_mapping(sd.spec_config().static_services@, announced(sd.known(), id, src, now))[id]
            == if sd.spec_config().static_services@.contains_key(id) {
            sd.spec_config().static_services@[id]
        } else {
            src
        },
{
    crate::sd::packets::lemma_sd_message_roundtrip(ServiceDiscoveryMessage::OfferService(id));
    crate::sd::registry::lemma_found_after_announcement(sd.known(), id, src, sd.spec_config().service_ttl, now);
}

/// Starting is guarded: a component that runs already is left as it is and
/// nothing more is launched; a bound, stopped component with collision
/// detection checks for conflicts first, and when it hears its own service
/// ID offered during that check, the check fails and it is not launched.
pub proof fn lemma_start_guards(sd: ServiceDiscovery, heard: Seq<Vec<u8>>, k: int)
    ensures
        sd.running() ==> sd.start_plan() == Some(StartStep::AlreadyRunning),
        !sd.running() && sd.initialized() && sd.spec_config().collision_detection ==> sd.start_plan()
            == Some(StartStep::CheckConflicts),
        0 <= k < heard.len() && sd.offers_own_id(heard[k]@) ==> !sd.conflict_free(heard),
{
}

} // verus!
