//! Discovery of services by name over broadcast datagrams: a node answers
//! the requests for the names it provides, and a searching node broadcasts
//! a request and waits for the response that names the service.
//!
//! The socket, the answering thread, the clock and the waiting belong to
//! the caller; this module decides what is answered and what counts as
//! the awaited response.

use vstd::prelude::*;

use crate::addr::IpAddr;
use crate::constants::{DEFAULT_PORT, DEFAULT_RETRIES, DEFAULT_RETRY_DELAY_MS, DEFAULT_TIMEOUT_MS};
use crate::message::{
    spec_named_discovery_from_bytes, spec_named_discovery_to_bytes, DiscoveryMessage,
    NamedDiscovery,
};

verus! {

/// Settings of discovery by name.
#[derive(Debug, Clone, Copy)]
pub struct DiscoveryConfig {
    pub bind_addr: IpAddr,
    pub port: u16,
    /// How long to wait for a response to one request, in milliseconds.
    pub timeout_ms: u64,
    /// How many requests are sent before giving up.
    pub retries: u32,
    /// Pause between two requests, in milliseconds.
    pub retry_delay_ms: u64,
}

impl Default for DiscoveryConfig {
    /// 0.0.0.0 on the default port, 1 s per attempt, 3 attempts, 200 ms apart.
    fn default() -> (c: Self)
        ensures
            c.bind_addr == IpAddr::V4(0),
            c.port == DEFAULT_PORT,
            c.timeout_ms == DEFAULT_TIMEOUT_MS,
            c.retries == DEFAULT_RETRIES,
            c.retry_delay_ms == DEFAULT_RETRY_DELAY_MS,
    {
        DiscoveryConfig {
            bind_addr: IpAddr::V4(0),
            port: DEFAULT_PORT,
            timeout_ms: DEFAULT_TIMEOUT_MS,
            retries: DEFAULT_RETRIES,
            retry_delay_ms: DEFAULT_RETRY_DELAY_MS,
        }
    }
}

/// Why a discovery operation failed.
#[derive(Debug, Clone, Copy, PartialEq, Eq, Structural)]
pub enum NameDiscoveryError {
    /// The socket is not bound yet.
    NotInitialized,
    /// No response named the service.
    NotFound,
}

impl NameDiscoveryError {
    /// The description of the error.
    pub fn describe(&self) -> (s: String)
        ensures
            match self {
                NameDiscoveryError::NotInitialized => s@ == "Service discovery not initialized"@,
                NameDiscoveryError::NotFound => s@ == "Service not found"@,
            },
    {
        match self {
            NameDiscoveryError::NotInitialized => "Service discovery not initialized".to_owned(),
            NameDiscoveryError::NotFound => "Service not found".to_owned(),
        }
    }
}

/// The names in `names`, as texts.
pub open spec fn names_of(names: Seq<String>) -> Seq<Seq<char>> {
    names.map_values(|s: String| s@)
}

/// The state of discovery by name on one node.
pub struct ServiceDiscovery {
    config: DiscoveryConfig,
    provided_services: Vec<String>,
    socket_bound: bool,
    running: bool,
}

impl ServiceDiscovery {
    /// The names this node answers for.
    pub closed spec fn provided(self) -> Set<Seq<char>> {
        names_of(self.provided_services@).to_set()
    }

    /// The settings.
    pub closed spec fn spec_config(self) -> DiscoveryConfig {
        self.config
    }

    /// The socket is bound.
    pub closed spec fn initialized(self) -> bool {
        self.socket_bound
    }

    /// The answering worker runs.
    pub closed spec fn running(self) -> bool {
        self.running
    }

    /// Each provided name is held once.
    pub closed spec fn wf(self) -> bool {
        names_of(self.provided_services@).no_duplicates()
    }

    /// Discovery with default settings.
    pub fn new() -> (sd: Self)
        ensures
            sd.wf(),
            sd.provided() == Set::<Seq<char>>::empty(),
            !sd.initialized() && !sd.running(),
            sd.spec_config().port == DEFAULT_PORT,
    {
        Self::with_config(DiscoveryConfig::default())
    }

    /// Discovery with the given settings.
    pub fn with_config(config: DiscoveryConfig) -> (sd: Self)
        ensures
            sd.wf(),
            sd.spec_config() == config,
            sd.provided() == Set::<Seq<char>>::empty(),
            !sd.initialized() && !sd.running(),
    {
        let sd = ServiceDiscovery { config, provided_services: Vec::new(), socket_bound: false, running: false };
        assert(names_of(sd.provided_services@).to_set() =~= Set::<Seq<char>>::empty());
        sd
    }

    /// The settings.
    pub fn config(&self) -> (c: DiscoveryConfig)
        ensures
            c == self.spec_config(),
    {
        self.config
    }

    /// Whether the socket is bound.
    pub fn is_initialized(&self) -> (b: bool)
        ensures
            b == self.initialized(),
    {
        self.socket_bound
    }

    /// Whether the answering worker runs.
    pub fn is_running(&self) -> (b: bool)
        ensures
            b == self.running(),
    {
        self.running
    }

    /// Records that the socket is bound and the answering worker started.
    pub fn complete_init(&mut self)
        ensures
            final(self).initialized(),
            final(self).running(),
            final(self).provided() == old(self).provided(),
            final(self).spec_config() == old(self).spec_config(),
            final(self).wf() == old(self).wf(),
    {
        self.socket_bound = true;
        self.running = true;
    }

    /// The position of `name` among the provided names.
    fn position_of(&self, name: &String) -> (res: Option<usize>)
        ensures
            match res {
                Some(i) => i < self.provided_services@.len() && self.provided_services@[i as int]@ == name@,
                None => !names_of(self.provided_services@).contains(name@),
            },
    {
        let mut i: usize = 0;
        while i < self.provided_services.len()
            invariant
                i <= self.provided_services@.len(),
                forall|k: int| 0 <= k < i ==> self.provided_services@[k]@ != name@,
            decreases self.provided_services@.len() - i,
        {
            if self.provided_services[i] == *name {
                return Some(i);
            }
            i = i + 1;
        }
        proof {
            if names_of(self.provided_services@).contains(name@) {
                let k = choose|k: int|
                    0 <= k < names_of(self.provided_services@).len() && names_of(self.provided_services@)[k]
                        == name@;
                assert(self.provided_services@[k]@ == name@);
            }
        }
        None
    }

    /// Whether this node answers for `name`.
    pub fn provides(&self, name: &str) -> (b: bool)
        ensures
            b == self.provided().contains(name@),
    {
        let name = String::from_str(name);
        let found = self.position_of(&name);
        proof {
            if found is Some {
                assert(names_of(self.provided_services@)[found.unwrap() as int] == name@);
            }
        }
        found.is_some()
    }

    /// Starts answering for `name`; refused before the socket is bound.
    pub fn provide_service(&mut self, name: &str) -> (res: Result<(), NameDiscoveryError>)
        requires
            old(self).wf(),
        ensures
            final(self).wf(),
            final(self).spec_config() == old(self).spec_config(),
            final(self).initialized() == old(self).initialized(),
            final(self).running() == old(self).running(),
            !old(self).initialized() ==> res == Err::<(), NameDiscoveryError>(NameDiscoveryError::NotInitialized)
                && final(self).provided() == old(self).provided(),
            old(self).initialized() ==> res is Ok && final(self).provided() == old(self).provided().insert(name@),
    {
        if !self.socket_bound {
            return Err(NameDiscoveryError::NotInitialized);
        }
        let name = String::from_str(name);
        let found = self.position_of(&name);
        let ghost before = self.provided_services@;
        if found.is_none() {
            self.provided_services.push(name);
            proof {
                assert(names_of(self.provided_services@) =~= names_of(before).push(name@));
                names_of(before).lemma_push_to_set_commute(name@);
                assert forall|i: int, j: int|
                    0 <= i < j < names_of(self.provided_services@).len() implies names_of(self.provided_services@)[i]
                    != names_of(self.provided_services@)[j] by {
                    if j == before.len() {
                        assert(names_of(before)[i] == names_of(self.provided_services@)[i]);
                        assert(names_of(before).contains(names_of(before)[i]));
                    }
                }
            }
        } else {
            proof {
                let i = found.unwrap() as int;
                assert(names_of(before)[i] == name@);
                assert(names_of(before).contains(name@));
                assert(self.provided() =~= old(self).provided().insert(name@));
            }
        }
        Ok(())
    }

    /// Stops answering for `name`.
    pub fn stop_providing_service(&mut self, name: &str) -> (res: Result<(), NameDiscoveryError>)
        requires
            old(self).wf(),
        ensures
            final(self).wf(),
            res is Ok,
            final(self).provided() == old(self).provided().remove(name@),
            final(self).spec_config() == old(self).spec_config(),
            final(self).initialized() == old(self).initialized(),
            final(self).running() == old(self).running(),
    {
        let name = String::from_str(name);
        let found = self.position_of(&name);
        let ghost before = self.provided_services@;
        match found {
            Some(i) => {
                self.provided_services.remove(i);
                proof {
                    let nb = names_of(before);
                    let na = names_of(self.provided_services@);
                    assert(nb[i as int] == name@);
                    assert(nb.no_duplicates());
                    assert(na =~= nb.remove(i as int));
                    assert forall|x: int, y: int| 0 <= x < y < na.len() implies na[x] != na[y] by {
                        let xi = if x < i { x } else { x + 1 };
                        let yi = if y < i { y } else { y + 1 };
                        assert(na[x] == nb[xi]);
                        assert(na[y] == nb[yi]);
                    }
                    assert forall|n: Seq<char>| #[trigger] na.to_set().contains(n) == nb.to_set().remove(name@).contains(n) by {
                        if na.contains(n) {
                            let k = choose|k: int| 0 <= k < na.len() && na[k] == n;
                            let ki = if k < i { k } else { k + 1 };
                            assert(nb[ki] == n);
                            assert(ki != i);
                            assert(n != name@);
                        }
                        if nb.contains(n) && n != name@ {
                            let k = choose|k: int| 0 <= k < nb.len() && nb[k] == n;
                            assert(k != i);
                            let kr = if k < i { k } else { k - 1 };
                            assert(na[kr] == n);
                        }
                    }
                    assert(self.provided() =~= old(self).provided().remove(name@));
                }
            },
            None => {
                proof {
                    assert(self.provided() =~= old(self).provided().remove(name@));
                }
            },
        }
        Ok(())
    }

    /// The answer to a received datagram: a request for a provided name is
    /// answered with a response naming it; everything else goes unanswered.
    pub fn answer(&self, datagram: &[u8]) -> (res: Option<Vec<u8>>)
        ensures
            match spec_named_discovery_from_bytes(datagram@) {
                Some(NamedDiscovery::Request(name)) => if self.provided().contains(name) {
                    res matches Some(bytes) && bytes@ == spec_named_discovery_to_bytes(
                        NamedDiscovery::Response(name),
                    )
                } else {
                    res is None
                },
                _ => res is None,
            },
    {
        match DiscoveryMessage::from_bytes(datagram) {
            Some(DiscoveryMessage::Request(service_name)) => {
                let found = self.position_of(&service_name);
                proof {
                    if found is Some {
                        assert(names_of(self.provided_services@)[found.unwrap() as int] == service_name@);
                    }
                }
                if found.is_some() {
                    Some(DiscoveryMessage::Response(service_name).to_bytes())
                } else {
                    None
                }
            },
            _ => None,
        }
    }

    /// The request to broadcast when searching for `name`; refused before
    /// the socket is bound.
    pub fn discovery_request(&self, name: &str) -> (res: Result<Vec<u8>, NameDiscoveryError>)
        ensures
            !self.initialized() ==> res == Err::<Vec<u8>, NameDiscoveryError>(NameDiscoveryError::NotInitialized),
            self.initialized() ==> (res matches Ok(bytes) && bytes@ == spec_named_discovery_to_bytes(
                NamedDiscovery::Request(name@),
            )),
    {
        if !self.socket_bound {
            return Err(NameDiscoveryError::NotInitialized);
        }
        Ok(DiscoveryMessage::Request(String::from_str(name)).to_bytes())
    }

    /// Whether a received datagram is the response naming `name`.
    pub fn is_answer_for(datagram: &[u8], name: &str) -> (b: bool)
        ensures
            b == (spec_named_discovery_from_bytes(datagram@) == Some(NamedDiscovery::Response(name@))),
    {
        match DiscoveryMessage::from_bytes(datagram) {
            Some(DiscoveryMessage::Response(found)) => found == String::from_str(name),
            _ => false,
        }
    }

    /// Whether another request follows after `attempts` unanswered ones.
    pub fn retry_after(&self, attempts: u32) -> (b: bool)
        ensures
            b == (attempts < self.spec_config().retries),
    {
        attempts < self.config.retries
    }

    /// Stops answering, gives up the socket and forgets the provided names.
    pub fn shutdown(&mut self)
        ensures
            final(self).wf(),
            !final(self).initialized(),
            !final(self).running(),
            final(self).provided() == Set::<Seq<char>>::empty(),
            final(self).spec_config() == old(self).spec_config(),
    {
        self.running = false;
        self.socket_bound = false;
        self.provided_services = Vec::new();
        assert(names_of(self.provided_services@).to_set() =~= Set::<Seq<char>>::empty());
    }
}

/// A node that provides a name answers a request for it with the response
/// that the searching node accepts as the answer for that name.
pub proof fn lemma_provided_name_is_found(name: Seq<char>)
    ensures
        spec_named_discovery_from_bytes(spec_named_discovery_to_bytes(NamedDiscovery::Request(name)))
            == Some(NamedDiscovery::Request(name)),
        spec_named_discovery_from_bytes(spec_named_discovery_to_bytes(NamedDiscovery::Response(name)))
            == Some(NamedDiscovery::Response(name)),
{
    crate::message::lemma_named_discovery_roundtrip(NamedDiscovery::Request(name));
    crate::message::lemma_named_discovery_roundtrip(NamedDiscovery::Response(name));
}

} // verus!
