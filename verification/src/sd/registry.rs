//! The fixed-capacity table of services known to the discovery component.
//!
//! Times are milliseconds of a monotonic clock that the caller reads; the
//! registry never reads a clock itself.

use std::collections::HashMap;

use vstd::prelude::*;

use crate::addr::IpAddr;
use crate::sd::constants::SD_MAX_TRACKED_SERVICES;

verus! {

/// What the registry knows of one tracked service.
#[derive(Debug, Clone, Copy, PartialEq, Eq, Structural)]
pub struct ServiceInfo {
    /// Where the service was seen (or is configured to be).
    pub ip: IpAddr,
    /// When the service was last announced or configured, in milliseconds.
    pub last_seen: u64,
    /// Configured entries are never replaced by announcements nor expire.
    pub is_static: bool,
}

/// Why a service could not be added to the registry.
#[derive(Debug, Clone, Copy, PartialEq, Eq, Structural)]
pub enum RegistryError {
    /// All slots are taken by other services.
    Full,
}

/// One slot of the registry.
#[derive(Debug, Clone, Copy)]
pub struct ServiceEntry {
    service_id: u16,
    ip: IpAddr,
    last_seen: u64,
    active: bool,
    /// Whether this is a static entry that should never be removed
    is_static: bool,
}

impl ServiceEntry {
    /// The information held by the slot.
    pub closed spec fn info(self) -> ServiceInfo {
        ServiceInfo { ip: self.ip, last_seen: self.last_seen, is_static: self.is_static }
    }

    /// An unused slot: service ID 0 at 0.0.0.0, last seen at time 0, not static.
    pub fn default() -> (e: ServiceEntry)
        ensures
            !e.spec_active(),
            e.spec_service_id() == 0,
            e.info() == (ServiceInfo { ip: IpAddr::V4(0), last_seen: 0, is_static: false }),
    {
        ServiceEntry {
            service_id: 0,
            ip: IpAddr::V4(0),
            last_seen: 0,
            active: false,
            is_static: false,
        }
    }

    /// Whether the slot is in use.
    pub closed spec fn spec_active(self) -> bool {
        self.active
    }

    /// The service ID the slot holds.
    pub closed spec fn spec_service_id(self) -> u16 {
        self.service_id
    }
}

/// Whether a discovered service last seen at `last_seen` has outlived `ttl` at `now`.
pub open spec fn is_stale(last_seen: u64, ttl: u64, now: u64) -> bool {
    now > last_seen + ttl
}

/// What is left of `services` after a sweep at `now`: the static services
/// and those announced within the last `ttl` milliseconds.
pub open spec fn fresh_services(services: Map<u16, ServiceInfo>, ttl: u64, now: u64) -> Map<
    u16,
    ServiceInfo,
> {
    Map::new(
        |id: u16|
            services.contains_key(id) && (services[id].is_static || !is_stale(
                services[id].last_seen,
                ttl,
                now,
            )),
        |id: u16| services[id],
    )
}

/// What an announcement of `id` from `ip` at `now` makes of `services`: a
/// tracked discovered service takes the new address and time, a static one
/// stays, and a new service is added while there is room.
pub open spec fn announced(services: Map<u16, ServiceInfo>, id: u16, ip: IpAddr, now: u64) -> Map<
    u16,
    ServiceInfo,
> {
    if services.contains_key(id) {
        if services[id].is_static {
            services
        } else {
            services.insert(id, ServiceInfo { ip, last_seen: now, is_static: false })
        }
    } else if services.len() < SD_MAX_TRACKED_SERVICES {
        services.insert(id, ServiceInfo { ip, last_seen: now, is_static: false })
    } else {
        services
    }
}

/// What a withdrawal of `id` makes of `services`: a discovered service is
/// forgotten, a static one stays.
pub open spec fn withdrawn(services: Map<u16, ServiceInfo>, id: u16) -> Map<u16, ServiceInfo> {
    if services.contains_key(id) && !services[id].is_static {
        services.remove(id)
    } else {
        services
    }
}

/// What configuring `id` at `ip` as static at `now` makes of `services`.
pub open spec fn configured(services: Map<u16, ServiceInfo>, id: u16, ip: IpAddr, now: u64) -> Map<
    u16,
    ServiceInfo,
> {
    if services.contains_key(id) || services.len() < SD_MAX_TRACKED_SERVICES {
        services.insert(id, ServiceInfo { ip, last_seen: now, is_static: true })
    } else {
        services
    }
}

/// `after` is a possible outcome of loading `statics` at `now` into
/// `before`: loaded services are static at their configured address, a
/// configured service is missing only from a full registry, and services
/// without a static mapping are untouched.
pub open spec fn loaded(
    before: Map<u16, ServiceInfo>,
    statics: Map<u16, IpAddr>,
    now: u64,
    after: Map<u16, ServiceInfo>,
) -> bool {
    &&& forall|id: u16|
        #[trigger] statics.contains_key(id) && after.contains_key(id) ==> after[id] == (ServiceInfo {
            ip: statics[id],
            last_seen: now,
            is_static: true,
        })
    &&& forall|id: u16|
        #[trigger] statics.contains_key(id) ==> after.contains_key(id) || after.len()
            == SD_MAX_TRACKED_SERVICES
    &&& forall|id: u16|
        !statics.contains_key(id) ==> (#[trigger] after.contains_key(id) == before.contains_key(id))
            && (after.contains_key(id) ==> after[id] == before[id])
}

/// The first slot at or after `k` that is not in use.
pub open spec fn first_free_from(slots: Seq<Option<(u16, ServiceInfo)>>, k: int) -> Option<int>
    decreases slots.len() - k,
{
    if k < 0 || k >= slots.len() {
        None
    } else if slots[k] is None {
        Some(k)
    } else {
        first_free_from(slots, k + 1)
    }
}

/// A slot that is free while every slot before it is in use is the first free slot.
proof fn lemma_first_free(slots: Seq<Option<(u16, ServiceInfo)>>, k: int, i: int)
    requires
        0 <= k <= i < slots.len(),
        slots[i] is None,
        forall|j: int| 0 <= j < i ==> #[trigger] slots[j] is Some,
    ensures
        first_free_from(slots, k) == Some(i),
    decreases i - k,
{
    if k < i {
        lemma_first_free(slots, k + 1, i);
    }
}

/// Where every slot is in use, none is free.
proof fn lemma_no_free(slots: Seq<Option<(u16, ServiceInfo)>>, k: int)
    requires
        0 <= k,
        forall|j: int| 0 <= j < slots.len() ==> #[trigger] slots[j] is Some,
    ensures
        first_free_from(slots, k) is None,
    decreases slots.len() - k,
{
    if k < slots.len() {
        lemma_no_free(slots, k + 1);
    }
}

/// The registry of services, a fixed array of slots.
#[derive(Debug)]
pub struct ServiceRegistry {
    entries: [ServiceEntry; SD_MAX_TRACKED_SERVICES],
}

impl View for ServiceRegistry {
    type V = Map<u16, ServiceInfo>;

    /// Each tracked service ID with what is known of it.
    closed spec fn view(&self) -> Map<u16, ServiceInfo> {
        Map::new(
            |id: u16| self.first_slot(id, 8) is Some,
            |id: u16| self.entries@[self.first_slot(id, 8)->0].info(),
        )
    }
}

impl ServiceRegistry {
    /// The slots: `Some` with the service ID and what is known of it for a
    /// slot in use, `None` for a free one.
    pub closed spec fn slots(self) -> Seq<Option<(u16, ServiceInfo)>> {
        Seq::new(
            8,
            |i: int|
                if self.entries@[i].active {
                    Some((self.entries@[i].service_id, self.entries@[i].info()))
                } else {
                    None
                },
        )
    }

    /// Slot `i` tracks the service `id`.
    closed spec fn holds(self, i: int, id: u16) -> bool {
        0 <= i < 8 && self.entries@[i].active && self.entries@[i].service_id == id
    }

    /// The first of the slots below `k` that tracks `id`.
    closed spec fn first_slot(self, id: u16, k: int) -> Option<int>
        decreases k,
    {
        if k <= 0 {
            None
        } else {
            match self.first_slot(id, k - 1) {
                Some(i) => Some(i),
                None => if self.holds(k - 1, id) {
                    Some(k - 1)
                } else {
                    None
                },
            }
        }
    }

    /// No two slots track the same service.
    pub closed spec fn wf(self) -> bool {
        forall|i: int, j: int|
            #![trigger self.entries@[i], self.entries@[j]]
            0 <= i < 8 && 0 <= j < 8 && i != j && self.entries@[i].active
                && self.entries@[j].active ==> self.entries@[i].service_id
                != self.entries@[j].service_id
    }

    /// Number of slots in use below `k`.
    closed spec fn used_below(self, k: int) -> nat
        decreases k,
    {
        if k <= 0 {
            0
        } else {
            self.used_below(k - 1) + if self.entries@[k - 1].active {
                1nat
            } else {
                0nat
            }
        }
    }

    /// The service IDs tracked by slots below `k`.
    closed spec fn ids_below(self, k: int) -> Set<u16> {
        Set::new(|id: u16| exists|i: int| 0 <= i < k && #[trigger] self.holds(i, id))
    }

    proof fn lemma_first_slot(self, id: u16, k: int)
        requires
            0 <= k <= 8,
        ensures
            self.first_slot(id, k) matches Some(i) ==> 0 <= i < k && self.holds(i, id) && forall|
                j: int,
            | 0 <= j < i ==> !#[trigger] self.holds(j, id),
            self.first_slot(id, k) is None ==> forall|j: int|
                0 <= j < k ==> !#[trigger] self.holds(j, id),
        decreases k,
    {
        if k > 0 {
            self.lemma_first_slot(id, k - 1);
        }
    }

    /// The view in terms of slots: a service is tracked exactly when a slot
    /// holds it, and that slot's information is what the view shows.
    proof fn lemma_view(self)
        requires
            self.wf(),
        ensures
            forall|i: int, id: u16| #[trigger]
                self.holds(i, id) ==> self@.contains_key(id) && self@[id] == self.entries@[i].info(),
            forall|id: u16| #[trigger]
                self@.contains_key(id) ==> self.holds(self.first_slot(id, 8)->0, id),
    {
        assert forall|i: int, id: u16| #[trigger]
            self.holds(i, id) implies self@.contains_key(id) && self@[id]
            == self.entries@[i].info() by {
            self.lemma_first_slot(id, 8);
            let f = self.first_slot(id, 8);
            if f is None {
                assert(!self.holds(i, id));
            } else {
                let j = f->0;
                if j != i {
                    assert(self.entries@[i].service_id == self.entries@[j].service_id);
                }
            }
        }
        assert forall|id: u16| #[trigger]
            self@.contains_key(id) implies self.holds(self.first_slot(id, 8)->0, id) by {
            self.lemma_first_slot(id, 8);
        }
    }

    proof fn lemma_ids_below(self, k: int)
        requires
            self.wf(),
            0 <= k <= 8,
        ensures
            self.ids_below(k).finite(),
            self.ids_below(k).len() == self.used_below(k),
        decreases k,
    {
        if k == 0 {
            assert(self.ids_below(0) =~= Set::<u16>::empty());
        } else {
            self.lemma_ids_below(k - 1);
            let e = self.entries@[k - 1];
            if e.active {
                assert(self.ids_below(k) =~= self.ids_below(k - 1).insert(e.service_id)) by {
                    assert(self.holds(k - 1, e.service_id));
                }
                assert(!self.ids_below(k - 1).contains(e.service_id)) by {
                    if self.ids_below(k - 1).contains(e.service_id) {
                        let i = choose|i: int|
                            0 <= i < k - 1 && #[trigger] self.holds(i, e.service_id);
                        assert(self.entries@[i].service_id == self.entries@[k - 1].service_id);
                    }
                }
            } else {
                assert(self.ids_below(k) =~= self.ids_below(k - 1));
            }
        }
    }

    /// The number of tracked services is the number of slots in use, and
    /// at most the capacity.
    proof fn lemma_len(self)
        requires
            self.wf(),
        ensures
            self@.dom().finite(),
            self@.dom().len() == self.used_below(8),
            self.used_below(8) <= 8,
    {
        self.lemma_view();
        self.lemma_ids_below(8);
        self.lemma_used_bound(8);
        assert(self@.dom() =~= self.ids_below(8));
    }

    proof fn lemma_used_bound(self, k: int)
        requires
            0 <= k <= 8,
        ensures
            self.used_below(k) <= k,
            self.used_below(k) == k <==> forall|i: int| 0 <= i < k ==> #[trigger] self.entries@[i].active,
        decreases k,
    {
        if k > 0 {
            self.lemma_used_bound(k - 1);
            if self.used_below(k) == k {
                assert forall|i: int| 0 <= i < k implies #[trigger] self.entries@[i].active by {
                    if i < k - 1 {
                    }
                }
            }
        }
    }

    /// An empty registry.
    pub fn new() -> (r: Self)
        ensures
            r.wf(),
            r@ == Map::<u16, ServiceInfo>::empty(),
    {
        let empty = ServiceEntry::default();
        let r = ServiceRegistry { entries: [empty; SD_MAX_TRACKED_SERVICES] };
        assert forall|id: u16| !(#[trigger] r@.contains_key(id)) by {
            r.lemma_first_slot(id, 8);
            if r@.contains_key(id) {
                let i = r.first_slot(id, 8)->0;
                assert(r.entries@[i] == empty);
            }
        }
        assert(r@ =~= Map::<u16, ServiceInfo>::empty());
        r
    }

    /// Index of the slot tracking `id`, if any.
    fn slot_of(&self, service_id: u16) -> (res: Option<usize>)
        requires
            self.wf(),
        ensures
            match res {
                Some(i) => self.holds(i as int, service_id),
                None => !self@.contains_key(service_id),
            },
    {
        let mut i: usize = 0;
        while i < SD_MAX_TRACKED_SERVICES
            invariant
                i <= 8,
                forall|j: int| 0 <= j < i ==> !#[trigger] self.holds(j, service_id),
            decreases 8 - i,
        {
            let entry = self.entries[i];
            if entry.active && entry.service_id == service_id {
                return Some(i);
            }
            i = i + 1;
        }
        proof {
            self.lemma_view();
        }
        None
    }

    /// Index of an unused slot, if any.
    fn free_slot(&self) -> (res: Option<usize>)
        requires
            self.wf(),
        ensures
            match res {
                Some(i) => i < 8 && !self.entries@[i as int].active && first_free_from(self.slots(), 0)
                    == Some(i as int),
                None => self@.dom().len() == SD_MAX_TRACKED_SERVICES && first_free_from(self.slots(), 0)
                    is None,
            },
    {
        let mut i: usize = 0;
        while i < SD_MAX_TRACKED_SERVICES
            invariant
                i <= 8,
                forall|j: int| 0 <= j < i ==> #[trigger] self.entries@[j].active,
            decreases 8 - i,
        {
            if !self.entries[i].active {
                proof {
                    assert forall|j: int| 0 <= j < i implies #[trigger] self.slots()[j] is Some by {
                        assert(self.entries@[j].active);
                    }
                    lemma_first_free(self.slots(), 0, i as int);
                }
                return Some(i);
            }
            i = i + 1;
        }
        proof {
            self.lemma_used_bound(8);
            self.lemma_len();
            assert forall|j: int| 0 <= j < 8 implies #[trigger] self.slots()[j] is Some by {
                assert(self.entries@[j].active);
            }
            lemma_no_free(self.slots(), 0);
        }
        None
    }

    /// Writes `info` into slot `i`, which tracks or will track `id`.
    fn put(&mut self, i: usize, service_id: u16, info_ip: IpAddr, now: u64, is_static: bool)
        requires
            old(self).wf(),
            i < 8,
            old(self).holds(i as int, service_id) || (!old(self).entries@[i as int].active
                && !old(self)@.contains_key(service_id)),
        ensures
            final(self).wf(),
            final(self)@ == old(self)@.insert(
                service_id,
                ServiceInfo { ip: info_ip, last_seen: now, is_static },
            ),
            final(self).slots() == old(self).slots().update(
                i as int,
                Some((service_id, ServiceInfo { ip: info_ip, last_seen: now, is_static })),
            ),
    {
        let ghost before = *self;
        proof {
            before.lemma_view();
        }
        self.entries[i] = ServiceEntry {
            service_id,
            ip: info_ip,
            last_seen: now,
            active: true,
            is_static,
        };
        proof {
            assert forall|a: int, b: int|
                #![trigger self.entries@[a], self.entries@[b]]
                0 <= a < 8 && 0 <= b < 8 && a != b && self.entries@[a].active
                    && self.entries@[b].active implies self.entries@[a].service_id
                != self.entries@[b].service_id by {
                if a == i as int {
                    assert(before.holds(b, self.entries@[b].service_id));
                } else if b == i as int {
                    assert(before.holds(a, self.entries@[a].service_id));
                } else {
                    assert(before.entries@[a] == self.entries@[a]);
                    assert(before.entries@[b] == self.entries@[b]);
                }
            }
            self.lemma_view();
            let target = before@.insert(
                service_id,
                ServiceInfo { ip: info_ip, last_seen: now, is_static },
            );
            assert(self.holds(i as int, service_id));
            assert forall|id: u16| #[trigger] self@.contains_key(id) == target.contains_key(id) by {
                if id != service_id {
                    if self@.contains_key(id) {
                        let j = self.first_slot(id, 8)->0;
                        assert(before.holds(j, id));
                    }
                    if before@.contains_key(id) {
                        let j = before.first_slot(id, 8)->0;
                        assert(self.holds(j, id));
                    }
                }
            }
            assert forall|id: u16| #[trigger] self@.contains_key(id) implies self@[id] == target[id] by {
                if id != service_id {
                    let j = self.first_slot(id, 8)->0;
                    assert(before.holds(j, id));
                    assert(self.entries@[j] == before.entries@[j]);
                }
            }
            assert(self@ =~= target);
            assert(self.slots() =~= before.slots().update(
                i as int,
                Some((service_id, ServiceInfo { ip: info_ip, last_seen: now, is_static })),
            ));
        }
    }

    /// Records an announcement of `service_id` from `ip` at time `now`.
    ///
    /// A tracked service that is not static gets the new address and time;
    /// a static one is left as configured. A new service takes a free slot,
    /// and the registry reports `Full` when there is none.
    pub fn insert(&mut self, service_id: u16, ip: IpAddr, now: u64) -> (res: Result<(), RegistryError>)
        requires
            old(self).wf(),
        ensures
            final(self).wf(),
            old(self)@.contains_key(service_id) ==> res is Ok && if old(self)@[service_id].is_static {
                final(self)@ == old(self)@
            } else {
                final(self)@ == old(self)@.insert(
                    service_id,
                    ServiceInfo { ip, last_seen: now, is_static: false },
                )
            },
            !old(self)@.contains_key(service_id) ==> {
                &&& (res is Ok <==> old(self)@.len() < SD_MAX_TRACKED_SERVICES)
                &&& res is Ok ==> final(self)@ == old(self)@.insert(
                    service_id,
                    ServiceInfo { ip, last_seen: now, is_static: false },
                )
                &&& res is Err ==> final(self)@ == old(self)@ && res == Err::<(), RegistryError>(
                    RegistryError::Full,
                )
            },
            forall|i: int|
                0 <= i < 8 && #[trigger] old(self).slots()[i] is Some && old(self).slots()[i]->Some_0.0
                    == service_id ==> final(self).slots() == if old(self).slots()[i]->Some_0.1.is_static {
                    old(self).slots()
                } else {
                    old(self).slots().update(
                        i,
                        Some((service_id, ServiceInfo { ip, last_seen: now, is_static: false })),
                    )
                },
            !old(self)@.contains_key(service_id) ==> match first_free_from(old(self).slots(), 0) {
                Some(f) => final(self).slots() == old(self).slots().update(
                    f,
                    Some((service_id, ServiceInfo { ip, last_seen: now, is_static: false })),
                ),
                None => final(self).slots() == old(self).slots(),
            },
    {
        proof {
            self.lemma_view();
            self.lemma_len();
        }
        let ghost before = *self;
        match self.slot_of(service_id) {
            Some(i) => {
                proof {
                    assert forall|j: int|
                        0 <= j < 8 && #[trigger] before.slots()[j] is Some && before.slots()[j]->Some_0.0
                            == service_id implies j == i as int by {
                        assert(before.entries@[j].active);
                        assert(before.holds(i as int, service_id));
                    }
                    assert(before.slots()[i as int]->Some_0.1.is_static == before.entries@[i as int].is_static);
                }
                if !self.entries[i].is_static {
                    self.put(i, service_id, ip, now, false);
                }
                Ok(())
            },
            None => {
                proof {
                    assert forall|j: int|
                        0 <= j < 8 && #[trigger] before.slots()[j] is Some implies before.slots()[j]->Some_0.0
                            != service_id by {
                        assert(before.entries@[j].active);
                        if before.entries@[j].service_id == service_id {
                            assert(before.holds(j, service_id));
                        }
                    }
                }
                match self.free_slot() {
                    Some(i) => {
                        proof {
                            self.lemma_used_bound(8);
                        }
                        self.put(i, service_id, ip, now, false);
                        Ok(())
                    },
                    None => Err(RegistryError::Full),
                }
            },
        }
    }

    /// Configures `service_id` at `ip` as static, at time `now`: a tracked
    /// service becomes static with the new address, a new one takes a free
    /// slot, and the registry reports `Full` when there is none.
    pub fn insert_static(&mut self, service_id: u16, ip: IpAddr, now: u64) -> (res: Result<
        (),
        RegistryError,
    >)
        requires
            old(self).wf(),
        ensures
            final(self).wf(),
            res is Ok <==> (old(self)@.contains_key(service_id) || old(self)@.len()
                < SD_MAX_TRACKED_SERVICES),
            res is Ok ==> final(self)@ == old(self)@.insert(
                service_id,
                ServiceInfo { ip, last_seen: now, is_static: true },
            ),
            res is Err ==> final(self)@ == old(self)@ && res == Err::<(), RegistryError>(
                RegistryError::Full,
            ),
    {
        proof {
            self.lemma_view();
            self.lemma_len();
        }
        match self.slot_of(service_id) {
            Some(i) => {
                self.put(i, service_id, ip, now, true);
                Ok(())
            },
            None => match self.free_slot() {
                Some(i) => {
                    proof {
                        self.lemma_used_bound(8);
                    }
                    self.put(i, service_id, ip, now, true);
                    Ok(())
                },
                None => Err(RegistryError::Full),
            },
        }
    }

    /// Marks slot `i`, which tracks `id`, as unused.
    fn vacate(&mut self, i: usize, service_id: u16)
        requires
            old(self).wf(),
            old(self).holds(i as int, service_id),
        ensures
            final(self).wf(),
            final(self)@ == old(self)@.remove(service_id),
    {
        let ghost before = *self;
        proof {
            before.lemma_view();
        }
        let mut entry = self.entries[i];
        entry.active = false;
        self.entries[i] = entry;
        proof {
            assert forall|a: int, b: int|
                #![trigger self.entries@[a], self.entries@[b]]
                0 <= a < 8 && 0 <= b < 8 && a != b && self.entries@[a].active
                    && self.entries@[b].active implies self.entries@[a].service_id
                != self.entries@[b].service_id by {
                assert(before.entries@[a] == self.entries@[a]);
                assert(before.entries@[b] == self.entries@[b]);
            }
            self.lemma_view();
            let target = before@.remove(service_id);
            assert forall|id: u16| #[trigger] self@.contains_key(id) == target.contains_key(id) by {
                if self@.contains_key(id) {
                    let j = self.first_slot(id, 8)->0;
                    assert(before.holds(j, id));
                    assert(j != i);
                }
                if target.contains_key(id) {
                    let j = before.first_slot(id, 8)->0;
                    if j == i as int {
                        assert(id == service_id);
                    }
                    assert(self.holds(j, id));
                }
            }
            assert forall|id: u16| #[trigger] self@.contains_key(id) implies self@[id] == target[id] by {
                let j = self.first_slot(id, 8)->0;
                assert(before.holds(j, id));
            }
            assert(self@ =~= target);
        }
    }

    /// Forgets a discovered service; static services stay.
    pub fn remove(&mut self, service_id: u16)
        requires
            old(self).wf(),
        ensures
            final(self).wf(),
            final(self)@ == if old(self)@.contains_key(service_id)
                && !old(self)@[service_id].is_static {
                old(self)@.remove(service_id)
            } else {
                old(self)@
            },
    {
        proof {
            self.lemma_view();
        }
        if let Some(i) = self.slot_of(service_id) {
            if !self.entries[i].is_static {
                self.vacate(i, service_id);
            }
        }
    }

    /// Forgets a static service; discovered services stay.
    pub fn remove_static(&mut self, service_id: u16)
        requires
            old(self).wf(),
        ensures
            final(self).wf(),
            final(self)@ == if old(self)@.contains_key(service_id)
                && old(self)@[service_id].is_static {
                old(self)@.remove(service_id)
            } else {
                old(self)@
            },
    {
        proof {
            self.lemma_view();
        }
        if let Some(i) = self.slot_of(service_id) {
            if self.entries[i].is_static {
                self.vacate(i, service_id);
            }
        }
    }

    /// The address of a tracked service.
    pub fn find(&self, service_id: u16) -> (res: Option<IpAddr>)
        requires
            self.wf(),
        ensures
            res == if self@.contains_key(service_id) {
                Some(self@[service_id].ip)
            } else {
                None::<IpAddr>
            },
    {
        proof {
            self.lemma_view();
        }
        match self.slot_of(service_id) {
            Some(i) => Some(self.entries[i].ip),
            None => None,
        }
    }

    /// Whether a slot survives a sweep for stale services.
    closed spec fn survives(e: ServiceEntry, ttl: u64, now: u64) -> bool {
        e.is_static || !is_stale(e.last_seen, ttl, now)
    }

    /// Forgets every discovered service whose last announcement is more than
    /// `ttl` milliseconds before `now`; static services never expire.
    pub fn cleanup_stale(&mut self, ttl: u64, now: u64)
        requires
            old(self).wf(),
        ensures
            final(self).wf(),
            final(self)@ == fresh_services(old(self)@, ttl, now),
    {
        let ghost before = *self;
        let mut i: usize = 0;
        while i < SD_MAX_TRACKED_SERVICES
            invariant
                i <= 8,
                forall|j: int|
                    #![trigger self.entries@[j]]
                    0 <= j < i ==> self.entries@[j] == if before.entries@[j].active
                        && !Self::survives(before.entries@[j], ttl, now) {
                        ServiceEntry { active: false, ..before.entries@[j] }
                    } else {
                        before.entries@[j]
                    },
                forall|j: int| #![trigger self.entries@[j]] i <= j < 8 ==> self.entries@[j] == before.entries@[j],
            decreases 8 - i,
        {
            let entry = self.entries[i];
            let stale = now > entry.last_seen && now - entry.last_seen > ttl;
            if entry.active && !entry.is_static && stale {
                let mut vacated = entry;
                vacated.active = false;
                self.entries[i] = vacated;
            }
            i = i + 1;
        }
        proof {
            assert forall|a: int, b: int|
                #![trigger self.entries@[a], self.entries@[b]]
                0 <= a < 8 && 0 <= b < 8 && a != b && self.entries@[a].active
                    && self.entries@[b].active implies self.entries@[a].service_id
                != self.entries@[b].service_id by {
                assert(before.entries@[a].active && before.entries@[b].active);
            }
            before.lemma_view();
            self.lemma_view();
            let target = fresh_services(before@, ttl, now);
            assert forall|id: u16| #[trigger] self@.contains_key(id) == target.contains_key(id) by {
                if self@.contains_key(id) {
                    let j = self.first_slot(id, 8)->0;
                    assert(before.holds(j, id));
                }
                if target.contains_key(id) {
                    let j = before.first_slot(id, 8)->0;
                    assert(self.holds(j, id));
                }
            }
            assert forall|id: u16| #[trigger] self@.contains_key(id) implies self@[id] == target[id] by {
                let j = self.first_slot(id, 8)->0;
                assert(before.holds(j, id));
            }
            assert(self@ =~= target);
        }
    }

    /// The services held by the slots below `k`, with their addresses, in slot order.
    closed spec fn active_below(self, k: int) -> Seq<(u16, IpAddr)>
        decreases k,
    {
        if k <= 0 {
            Seq::empty()
        } else {
            let rest = self.active_below(k - 1);
            let e = self.entries@[k - 1];
            if e.active {
                rest.push((e.service_id, e.ip))
            } else {
                rest
            }
        }
    }

    /// The tracked services with their addresses, in the order of the slots
    /// that hold them.
    pub closed spec fn active_in_slot_order(self) -> Seq<(u16, IpAddr)> {
        self.active_below(8)
    }

    /// The tracked services with their addresses, each once, in slot order.
    pub fn get_active_services(&self) -> (res: Vec<(u16, IpAddr)>)
        requires
            self.wf(),
        ensures
            res@ == self.active_in_slot_order(),
            forall|k: int|
                0 <= k < res@.len() ==> self@.contains_key(#[trigger] res@[k].0) && self@[res@[k].0].ip
                    == res@[k].1,
            forall|id: u16|
                #[trigger] self@.contains_key(id) ==> exists|k: int|
                    0 <= k < res@.len() && #[trigger] res@[k].0 == id,
            forall|k1: int, k2: int|
                0 <= k1 < res@.len() && 0 <= k2 < res@.len() && k1 != k2 ==> #[trigger] res@[k1].0
                    != #[trigger] res@[k2].0,
    {
        proof {
            self.lemma_view();
        }
        let mut res: Vec<(u16, IpAddr)> = Vec::new();
        let ghost mut slots: Seq<int> = Seq::empty();
        let mut i: usize = 0;
        while i < SD_MAX_TRACKED_SERVICES
            invariant
                i <= 8,
                self.wf(),
                res@ == self.active_below(i as int),
                slots.len() == res@.len(),
                forall|k: int|
                    0 <= k < res@.len() ==> 0 <= #[trigger] slots[k] < i && self.holds(slots[k], res@[k].0)
                        && self.entries@[slots[k]].ip == res@[k].1,
                forall|k1: int, k2: int|
                    0 <= k1 < k2 < res@.len() ==> #[trigger] slots[k1] < #[trigger] slots[k2],
                forall|j: int|
                    0 <= j < i && #[trigger] self.entries@[j].active ==> exists|k: int|
                        0 <= k < res@.len() && slots[k] == j,
            decreases 8 - i,
        {
            let entry = self.entries[i];
            let ghost old_slots = slots;
            let ghost old_len = res@.len();
            if entry.active {
                res.push((entry.service_id, entry.ip));
                proof {
                    slots = slots.push(i as int);
                }
            }
            proof {
                assert forall|j: int|
                    0 <= j < i + 1 && #[trigger] self.entries@[j].active implies exists|k: int|
                        0 <= k < res@.len() && slots[k] == j by {
                    if j == i as int {
                        assert(slots[res@.len() - 1] == j);
                    } else {
                        let k = choose|k: int| 0 <= k < old_len && old_slots[k] == j;
                        assert(slots[k] == j);
                    }
                }
            }
            i = i + 1;
        }
        proof {
            assert forall|k: int| 0 <= k < res@.len() implies self@.contains_key(
                #[trigger] res@[k].0,
            ) && self@[res@[k].0].ip == res@[k].1 by {
                assert(self.holds(slots[k], res@[k].0));
            }
            assert forall|id: u16| #[trigger] self@.contains_key(id) implies exists|k: int|
                0 <= k < res@.len() && #[trigger] res@[k].0 == id by {
                let j = self.first_slot(id, 8)->0;
                assert(self.entries@[j].active);
                let k = choose|k: int| 0 <= k < res@.len() && slots[k] == j;
                assert(res@[k].0 == id);
            }
            assert forall|k1: int, k2: int|
                0 <= k1 < res@.len() && 0 <= k2 < res@.len() && k1 != k2 implies #[trigger] res@[k1].0
                != #[trigger] res@[k2].0 by {
                if k1 < k2 {
                    assert(slots[k1] < slots[k2]);
                } else {
                    assert(slots[k2] < slots[k1]);
                }
                assert(self.entries@[slots[k1]].active && self.entries@[slots[k2]].active);
            }
        }
        res
    }

    /// Configures every service of `static_services` as static at time `now`.
    ///
    /// Services that do not fit into a full registry are skipped and the
    /// others are still loaded; which ones are skipped depends on the order in
    /// which the map is walked. Services outside the map are left as they were.
    pub fn load_static_services(
        &mut self,
        static_services: &HashMap<u16, IpAddr>,
        now: u64,
    ) -> (res: Result<(), RegistryError>)
        requires
            old(self).wf(),
        ensures
            final(self).wf(),
            res is Ok,
            loaded(old(self)@, static_services@, now, final(self)@),
    {
        broadcast use vstd::std_specs::hash::group_hash_axioms;

        let ghost start = self@;
        let ghost mut done: Set<u16> = Set::empty();
        let ghost mut count: int = 0;
        proof {
            self.lemma_len();
        }
        for entry in it: static_services.iter()
            invariant
                self.wf(),
                self@.dom().finite(),
                self@.len() <= SD_MAX_TRACKED_SERVICES,
                start.dom().subset_of(self@.dom()),
                it.seq().no_duplicates(),
                it.seq().len() == static_services@.len(),
                count == it.index(),
                done.finite(),
                done.len() == count,
                forall|k: int|
                    0 <= k < it.seq().len() ==> static_services@.contains_key(*#[trigger] it.seq()[k].0)
                        && static_services@[*it.seq()[k].0] == *it.seq()[k].1,
                forall|id: u16|
                    #[trigger] done.contains(id) <==> exists|k: int|
                        0 <= k < it.index() && *#[trigger] it.seq()[k].0 == id,
                forall|id: u16|
                    #[trigger] done.contains(id) ==> static_services@.contains_key(id) && (
                    self@.contains_key(id) ==> self@[id] == (ServiceInfo {
                        ip: static_services@[id],
                        last_seen: now,
                        is_static: true,
                    })) && (self@.contains_key(id) || self@.len() == SD_MAX_TRACKED_SERVICES),
                forall|id: u16|
                    !#[trigger] done.contains(id) ==> (self@.contains_key(id) == start.contains_key(id))
                        && (self@.contains_key(id) ==> self@[id] == start[id]),
        {
            let (service_id, ip) = entry;
            proof {
                if done.contains(*service_id) {
                    let k = choose|k: int| 0 <= k < it.index() && *it.seq()[k].0 == *service_id;
                    assert(it.seq()[k] == it.seq()[it.index() as int]);
                }
            }
            let _ = self.insert_static(*service_id, *ip, now);
            proof {
                self.lemma_len();
                done = done.insert(*service_id);
                count = count + 1;
                assert forall|id: u16| #[trigger] done.contains(id) implies exists|k: int|
                    0 <= k < it.index() + 1 && *#[trigger] it.seq()[k].0 == id by {
                    if id == *service_id {
                        assert(*it.seq()[it.index() as int].0 == id);
                    }
                }
            }
        }
        proof {
            vstd::std_specs::hash::axiom_hashmap_view_finite_dom(*static_services);
            assert(done.subset_of(static_services@.dom()));
            vstd::set_lib::lemma_subset_equality(done, static_services@.dom());
        }
        Ok(())
    }
}

/// The registry never tracks more services than it has slots.
pub proof fn lemma_registry_capacity(r: ServiceRegistry)
    requires
        r.wf(),
    ensures
        r@.dom().finite(),
        r@.len() <= SD_MAX_TRACKED_SERVICES,
{
    r.lemma_len();
}

/// Static services survive announcements, withdrawals and sweeps unchanged.
pub proof fn lemma_static_entries_persist(
    services: Map<u16, ServiceInfo>,
    id: u16,
    other: u16,
    ip: IpAddr,
    ttl: u64,
    now: u64,
)
    requires
        services.contains_key(id),
        services[id].is_static,
    ensures
        announced(services, other, ip, now).contains_key(id),
        announced(services, other, ip, now)[id] == services[id],
        withdrawn(services, other).contains_key(id),
        withdrawn(services, other)[id] == services[id],
        fresh_services(services, ttl, now).contains_key(id),
        fresh_services(services, ttl, now)[id] == services[id],
{
}

/// A service announced at `now` is found at the announcing address by a
/// lookup that first sweeps at the same time, unless it is configured
/// statically or the registry has no room for it.
pub proof fn lemma_found_after_announcement(
    services: Map<u16, ServiceInfo>,
    id: u16,
    ip: IpAddr,
    ttl: u64,
    now: u64,
)
    requires
        !(services.contains_key(id) && services[id].is_static),
        services.contains_key(id) || services.len() < SD_MAX_TRACKED_SERVICES,
    ensures
        fresh_services(announced(services, id, ip, now), ttl, now).contains_key(id),
        fresh_services(announced(services, id, ip, now), ttl, now)[id].ip == ip,
{
}

/// A withdrawn discovered service is not found any more.
pub proof fn lemma_gone_after_withdrawal(
    services: Map<u16, ServiceInfo>,
    id: u16,
    ttl: u64,
    now: u64,
)
    requires
        !(services.contains_key(id) && services[id].is_static),
    ensures
        !fresh_services(withdrawn(services, id), ttl, now).contains_key(id),
{
}

/// A discovered service expires once more than `ttl` milliseconds pass
/// without an announcement, and not before.
pub proof fn lemma_expiry(services: Map<u16, ServiceInfo>, id: u16, ttl: u64, now: u64)
    requires
        services.contains_key(id),
        !services[id].is_static,
    ensures
        fresh_services(services, ttl, now).contains_key(id) <==> now <= services[id].last_seen + ttl,
{
}

/// A withdrawal concerns only the withdrawn service: every other service
/// stays tracked or untracked as it was, with what is known of it; the
/// withdrawn service is forgotten unless it is static.
pub proof fn lemma_withdrawal_only_forgets_its_service(services: Map<u16, ServiceInfo>, id: u16)
    ensures
        forall|k: u16|
            k != id ==> (#[trigger] withdrawn(services, id).contains_key(k) == services.contains_key(k)
                && (services.contains_key(k) ==> withdrawn(services, id)[k] == services[k])),
        withdrawn(services, id).contains_key(id) <==> (services.contains_key(id) && services[id].is_static),
{
}

/// An announcement concerns only the announced service: every other
/// service stays as it was.
pub proof fn lemma_announcement_only_touches_its_service(
    services: Map<u16, ServiceInfo>,
    id: u16,
    ip: IpAddr,
    now: u64,
)
    ensures
        forall|k: u16|
            k != id ==> (#[trigger] announced(services, id, ip, now).contains_key(k) == services.contains_key(k)
                && (services.contains_key(k) ==> announced(services, id, ip, now)[k] == services[k])),
{
}

} // verus!
