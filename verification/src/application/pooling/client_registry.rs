//! A fixed-size table of connected clients and the channel to each.

use crossbeam::channel::Sender;
use vstd::prelude::*;

use crate::addr::IpAddr;
use crate::application::constants::MAX_CLIENTS_FIXED;
use crate::application::message::ApplicationMessage;

verus! {

/// crossbeam's channel sender, carried through the table unread.
#[verifier::external_type_specification]
#[verifier::external_body]
#[verifier::reject_recursive_types(T)]
pub struct ExCrossbeamSender<T>(crossbeam::channel::Sender<T>);

/// Why a client could not be added.
#[derive(Debug, Clone, Copy, PartialEq, Eq, Structural)]
pub enum ClientRegistryError {
    /// Every slot holds another client.
    NoAvailableSlots,
}

/// Fixed-size client connection tracking for embedded devices
#[derive(Clone, Copy)]
struct ClientEntry {
    ip: IpAddr,
    sender_index: Option<usize>,
    active: bool,
}

impl ClientEntry {
    fn default() -> (e: ClientEntry)
        ensures
            !e.active,
            e.sender_index is None,
    {
        ClientEntry { ip: IpAddr::V4(0), sender_index: None, active: false }
    }
}

/// The table of connected clients: each slot is free or holds a client's
/// address with the sender that reaches it.
pub struct FixedClientRegistry {
    entries: [ClientEntry; MAX_CLIENTS_FIXED],
    senders: [Option<Sender<ApplicationMessage>>; MAX_CLIENTS_FIXED],
}

/// The first slot that is free or holds `ip`: where a client with that address goes.
pub open spec fn slot_for(slots: Seq<Option<(IpAddr, Sender<ApplicationMessage>)>>, ip: IpAddr) -> Option<int>
    decreases slots.len(),
{
    first_slot_from(slots, ip, 0, true)
}

/// The first slot that holds `ip`.
pub open spec fn slot_of(slots: Seq<Option<(IpAddr, Sender<ApplicationMessage>)>>, ip: IpAddr) -> Option<int>
    decreases slots.len(),
{
    first_slot_from(slots, ip, 0, false)
}

/// The first slot at or after `k` that holds `ip`, or, when `or_free`, is free.
pub open spec fn first_slot_from(
    slots: Seq<Option<(IpAddr, Sender<ApplicationMessage>)>>,
    ip: IpAddr,
    k: int,
    or_free: bool,
) -> Option<int>
    decreases slots.len() - k,
{
    if k < 0 || k >= slots.len() {
        None
    } else {
        match slots[k] {
            None => if or_free {
                Some(k)
            } else {
                first_slot_from(slots, ip, k + 1, or_free)
            },
            Some(client) => if client.0 == ip {
                Some(k)
            } else {
                first_slot_from(slots, ip, k + 1, or_free)
            },
        }
    }
}

/// Number of occupied slots below `k`.
pub open spec fn occupied_below(slots: Seq<Option<(IpAddr, Sender<ApplicationMessage>)>>, k: int) -> nat
    decreases k,
{
    if k <= 0 {
        0
    } else {
        occupied_below(slots, k - 1) + if slots[k - 1] is Some {
            1nat
        } else {
            0nat
        }
    }
}

proof fn lemma_first_slot_from(
    slots: Seq<Option<(IpAddr, Sender<ApplicationMessage>)>>,
    ip: IpAddr,
    k: int,
    or_free: bool,
)
    requires
        0 <= k <= slots.len(),
    ensures
        first_slot_from(slots, ip, k, or_free) matches Some(i) ==> k <= i < slots.len() && (
        (or_free && slots[i] is None) || (slots[i] matches Some(c) && c.0 == ip)) && forall|j: int|
            k <= j < i ==> !((or_free && slots[j] is None) || (slots[j] matches Some(c)
                && c.0 == ip)),
        first_slot_from(slots, ip, k, or_free) is None ==> forall|j: int|
            k <= j < slots.len() ==> !((or_free && slots[j] is None) || (slots[j] matches Some(c)
                && c.0 == ip)),
    decreases slots.len() - k,
{
    if k < slots.len() {
        lemma_first_slot_from(slots, ip, k + 1, or_free);
    }
}

impl FixedClientRegistry {
    /// The slots: `Some` with the address and sender of a connected client.
    pub closed spec fn slots(self) -> Seq<Option<(IpAddr, Sender<ApplicationMessage>)>> {
        Seq::new(
            MAX_CLIENTS_FIXED as nat,
            |i: int|
                if self.entries@[i].active {
                    Some((self.entries@[i].ip, self.senders@[i]->Some_0))
                } else {
                    None
                },
        )
    }

    /// Each occupied slot refers to its own sender, which is present.
    pub closed spec fn wf(self) -> bool {
        forall|i: int|
            0 <= i < MAX_CLIENTS_FIXED ==> (#[trigger] self.entries@[i].active ==> self.entries@[i].sender_index
                == Some(i as usize) && self.senders@[i] is Some)
    }

    /// A table with every slot free.
    pub fn new() -> (r: Self)
        ensures
            r.wf(),
            r.slots() == Seq::new(
                MAX_CLIENTS_FIXED as nat,
                |i: int| None::<(IpAddr, Sender<ApplicationMessage>)>,
            ),
    {
        let empty = ClientEntry::default();
        let r = FixedClientRegistry {
            entries: [empty; MAX_CLIENTS_FIXED],
            senders: [None, None, None, None, None, None, None, None],
        };
        assert(r.slots() =~= Seq::new(
            MAX_CLIENTS_FIXED as nat,
            |i: int| None::<(IpAddr, Sender<ApplicationMessage>)>,
        ));
        r
    }

    /// Puts the client at the first slot that is free or already holds its
    /// address; fails when every slot holds another client.
    pub fn add_client(&mut self, ip: IpAddr, sender: Sender<ApplicationMessage>) -> (res: Result<
        (),
        ClientRegistryError,
    >)
        requires
            old(self).wf(),
        ensures
            final(self).wf(),
            match slot_for(old(self).slots(), ip) {
                Some(i) => res is Ok && final(self).slots() == old(self).slots().update(
                    i,
                    Some((ip, sender)),
                ),
                None => res == Err::<(), ClientRegistryError>(ClientRegistryError::NoAvailableSlots)
                    && final(self).slots() == old(self).slots(),
            },
    {
        let ghost before = *self;
        let mut i: usize = 0;
        while i < MAX_CLIENTS_FIXED
            invariant
                i <= MAX_CLIENTS_FIXED,
                *self == before,
                before == *old(self),
                before.wf(),
                forall|j: int|
                    0 <= j < i ==> #[trigger] self.entries@[j].active && self.entries@[j].ip != ip,
            decreases MAX_CLIENTS_FIXED - i,
        {
            let entry = self.entries[i];
            if !entry.active || entry.ip == ip {
                self.entries[i] = ClientEntry { ip, sender_index: Some(i), active: true };
                self.senders[i] = Some(sender);
                proof {
                    let s = before.slots();
                    lemma_first_slot_from(s, ip, 0, true);
                    assert forall|j: int| 0 <= j < i implies !((#[trigger] s[j] is None) || (s[j] matches Some(
                        c,
                    ) && c.0 == ip)) by {
                        assert(before.entries@[j].active && before.entries@[j].ip != ip);
                    }
                    assert(s[i as int] is None || s[i as int]->Some_0.0 == ip);
                    assert(slot_for(s, ip) == Some(i as int));
                    assert(self.slots() =~= s.update(i as int, Some((ip, sender))));
                }
                return Ok(());
            }
            i = i + 1;
        }
        proof {
            let s = before.slots();
            lemma_first_slot_from(s, ip, 0, true);
            assert forall|j: int| 0 <= j < MAX_CLIENTS_FIXED implies !((#[trigger] s[j] is None) || (
            s[j] matches Some(c) && c.0 == ip)) by {
                assert(before.entries@[j].active && before.entries@[j].ip != ip);
            }
        }
        Err(ClientRegistryError::NoAvailableSlots)
    }

    /// Frees the first slot holding `ip`, if any.
    pub fn remove_client(&mut self, ip: IpAddr)
        requires
            old(self).wf(),
        ensures
            final(self).wf(),
            match slot_of(old(self).slots(), ip) {
                Some(i) => final(self).slots() == old(self).slots().update(i, None),
                None => final(self).slots() == old(self).slots(),
            },
    {
        let ghost before = *self;
        let mut i: usize = 0;
        while i < MAX_CLIENTS_FIXED
            invariant
                i <= MAX_CLIENTS_FIXED,
                *self == before,
                before == *old(self),
                before.wf(),
                forall|j: int|
                    0 <= j < i ==> !(#[trigger] self.entries@[j].active && self.entries@[j].ip == ip),
            decreases MAX_CLIENTS_FIXED - i,
        {
            let entry = self.entries[i];
            if entry.active && entry.ip == ip {
                let mut freed = entry;
                freed.active = false;
                self.entries[i] = freed;
                self.senders[i] = None;
                proof {
                    let s = before.slots();
                    lemma_first_slot_from(s, ip, 0, false);
                    assert forall|j: int| 0 <= j < i implies !(#[trigger] s[j] matches Some(c) && c.0 == ip) by {
                        assert(!(before.entries@[j].active && before.entries@[j].ip == ip));
                    }
                    assert(s[i as int]->Some_0.0 == ip);
                    assert(slot_of(s, ip) == Some(i as int));
                    assert(self.slots() =~= s.update(i as int, None));
                }
                return ;
            }
            i = i + 1;
        }
        proof {
            let s = before.slots();
            lemma_first_slot_from(s, ip, 0, false);
            assert forall|j: int| 0 <= j < MAX_CLIENTS_FIXED implies !(#[trigger] s[j] matches Some(c) && c.0
                == ip) by {
                assert(!(before.entries@[j].active && before.entries@[j].ip == ip));
            }
        }
    }

    /// The sender of the first slot holding `ip`.
    pub fn get_sender(&self, ip: IpAddr) -> (res: Option<&Sender<ApplicationMessage>>)
        requires
            self.wf(),
        ensures
            match slot_of(self.slots(), ip) {
                Some(i) => res == Some(&self.slots()[i]->Some_0.1),
                None => res is None,
            },
    {
        proof {
            lemma_first_slot_from(self.slots(), ip, 0, false);
        }
        let mut i: usize = 0;
        while i < MAX_CLIENTS_FIXED
            invariant
                i <= MAX_CLIENTS_FIXED,
                self.wf(),
                forall|j: int|
                    0 <= j < i ==> !(#[trigger] self.entries@[j].active && self.entries@[j].ip == ip),
            decreases MAX_CLIENTS_FIXED - i,
        {
            let entry = &self.entries[i];
            if entry.active && entry.ip == ip {
                if let Some(idx) = entry.sender_index {
                    proof {
                        let s = self.slots();
                        lemma_first_slot_from(s, ip, 0, false);
                        assert forall|j: int| 0 <= j < i implies !(#[trigger] s[j] matches Some(c) && c.0 == ip) by {
                            assert(!(self.entries@[j].active && self.entries@[j].ip == ip));
                        }
                        assert(s[i as int]->Some_0.0 == ip);
                        assert(slot_of(s, ip) == Some(i as int));
                    }
                    return self.senders[idx].as_ref();
                }
            }
            i = i + 1;
        }
        proof {
            let s = self.slots();
            lemma_first_slot_from(s, ip, 0, false);
            assert forall|j: int| 0 <= j < MAX_CLIENTS_FIXED implies !(#[trigger] s[j] matches Some(c) && c.0
                == ip) by {
                assert(!(self.entries@[j].active && self.entries@[j].ip == ip));
            }
        }
        None
    }

    /// Whether some slot holds `ip`.
    pub fn is_connected(&self, ip: IpAddr) -> (b: bool)
        requires
            self.wf(),
        ensures
            b == (slot_of(self.slots(), ip) is Some),
    {
        proof {
            lemma_first_slot_from(self.slots(), ip, 0, false);
        }
        let mut i: usize = 0;
        while i < MAX_CLIENTS_FIXED
            invariant
                i <= MAX_CLIENTS_FIXED,
                forall|j: int|
                    0 <= j < i ==> !(#[trigger] self.entries@[j].active && self.entries@[j].ip == ip),
            decreases MAX_CLIENTS_FIXED - i,
        {
            if self.entries[i].active && self.entries[i].ip == ip {
                proof {
                    let s = self.slots();
                    lemma_first_slot_from(s, ip, 0, false);
                    assert(s[i as int]->Some_0.0 == ip);
                }
                return true;
            }
            i = i + 1;
        }
        proof {
            let s = self.slots();
            lemma_first_slot_from(s, ip, 0, false);
            assert forall|j: int| 0 <= j < MAX_CLIENTS_FIXED implies !(#[trigger] s[j] matches Some(c) && c.0
                == ip) by {
                assert(!(self.entries@[j].active && self.entries@[j].ip == ip));
            }
        }
        false
    }

    /// Number of occupied slots.
    pub fn len(&self) -> (n: usize)
        ensures
            n == occupied_below(self.slots(), MAX_CLIENTS_FIXED as int),
    {
        let mut n: usize = 0;
        let mut i: usize = 0;
        while i < MAX_CLIENTS_FIXED
            invariant
                i <= MAX_CLIENTS_FIXED,
                n == occupied_below(self.slots(), i as int),
                n <= i,
            decreases MAX_CLIENTS_FIXED - i,
        {
            if self.entries[i].active {
                n = n + 1;
            }
            i = i + 1;
        }
        n
    }
}

/// A client just added is the one found for its address: its sender is
/// what `get_sender` returns and it counts as connected.
pub proof fn lemma_added_client_is_found(
    slots: Seq<Option<(IpAddr, Sender<ApplicationMessage>)>>,
    ip: IpAddr,
    sender: Sender<ApplicationMessage>,
)
    requires
        slot_for(slots, ip) is Some,
    ensures
        slot_of(slots.update(slot_for(slots, ip)->0, Some((ip, sender))), ip) == slot_for(slots, ip),
        slots.update(slot_for(slots, ip)->0, Some((ip, sender)))[slot_for(slots, ip)->0]->Some_0.1
            == sender,
{
    let i = slot_for(slots, ip)->0;
    let after = slots.update(i, Some((ip, sender)));
    lemma_first_slot_from(slots, ip, 0, true);
    lemma_first_slot_from(after, ip, 0, false);
    assert forall|j: int| 0 <= j < i implies !(#[trigger] after[j] matches Some(c) && c.0 == ip) by {
        assert(after[j] == slots[j]);
    }
}

/// When no other slot holds the same address, removing a client
/// disconnects it.
pub proof fn lemma_removed_unique_client_is_gone(
    slots: Seq<Option<(IpAddr, Sender<ApplicationMessage>)>>,
    ip: IpAddr,
)
    requires
        slot_of(slots, ip) is Some,
        forall|a: int, b: int|
            0 <= a < slots.len() && 0 <= b < slots.len() && a != b && #[trigger] slots[a] is Some
                && #[trigger] slots[b] is Some ==> slots[a]->Some_0.0 != slots[b]->Some_0.0,
    ensures
        slot_of(slots.update(slot_of(slots, ip)->0, None), ip) is None,
{
    let i = slot_of(slots, ip)->0;
    let after = slots.update(i, None);
    lemma_first_slot_from(slots, ip, 0, false);
    lemma_first_slot_from(after, ip, 0, false);
    if slot_of(after, ip) is Some {
        let j = slot_of(after, ip)->0;
        assert(after[j] == slots[j]);
    }
}

} // verus!
