//! An application layer on one broadcast UDP socket: a service is found by
//! its ID with discovery requests and remembered once found, and methods
//! are called with application packets sent to the address found.
//!
//! The socket, the receiving thread, the clock and the waiting belong to the
//! caller; this module holds what is known and decides what each received
//! datagram means.

use std::collections::{HashMap, HashSet};

use vstd::prelude::*;

use crate::addr::IpAddr;
use crate::application::message::{
    spec_application_from_bytes, ApplicationFrame, ApplicationMessage,
    ApplicationMessageReturnCode, ApplicationMessageType, LENGTH_FIELD_BASE,
};
use crate::application::_impl_sync::frame_matches_but_id;
use crate::codec::{from_be16, read_be_u16, DecodeError};
use crate::constants::{
    APP_PREFIX, DEFAULT_PORT, DEFAULT_RETRIES, DEFAULT_RETRY_DELAY_MS, DEFAULT_TIMEOUT_MS,
    SD_REQUEST_PREFIX, SD_RESPONSE_PREFIX,
};
use crate::packets::sd::DiscoveryMessage;

verus! {

broadcast use vstd::std_specs::hash::group_hash_axioms;

/// How services are searched for.
#[derive(Debug, Clone, Copy)]
pub struct DiscoveryConfig {
    /// How long to wait for a response to one request, in milliseconds.
    pub timeout_ms: u64,
    /// How many requests are sent before giving up.
    pub retries: u32,
    /// Pause between two requests, in milliseconds.
    pub retry_delay_ms: u64,
}

impl Default for DiscoveryConfig {
    /// 1 s per attempt, 3 attempts, 200 ms apart.
    fn default() -> (c: Self)
        ensures
            c.timeout_ms == DEFAULT_TIMEOUT_MS,
            c.retries == DEFAULT_RETRIES,
            c.retry_delay_ms == DEFAULT_RETRY_DELAY_MS,
    {
        DiscoveryConfig {
            timeout_ms: DEFAULT_TIMEOUT_MS,
            retries: DEFAULT_RETRIES,
            retry_delay_ms: DEFAULT_RETRY_DELAY_MS,
        }
    }
}

/// Settings of the application.
#[derive(Debug, Clone, Copy)]
pub struct ApplicationConfig {
    pub bind_addr: IpAddr,
    pub port: u16,
    pub discovery_config: DiscoveryConfig,
}

impl ApplicationConfig {
    /// Settings with 0.0.0.0 and the default port where none are given.
    pub fn new(bind_addr: Option<IpAddr>, port: Option<u16>, discovery_config: DiscoveryConfig) -> (c: Self)
        ensures
            c.bind_addr == match bind_addr {
                Some(a) => a,
                None => IpAddr::V4(0),
            },
            c.port == match port {
                Some(p) => p,
                None => DEFAULT_PORT,
            },
            c.discovery_config == discovery_config,
    {
        ApplicationConfig {
            bind_addr: match bind_addr {
                Some(a) => a,
                None => IpAddr::V4(0),
            },
            port: match port {
                Some(p) => p,
                None => DEFAULT_PORT,
            },
            discovery_config,
        }
    }
}

/// Why an operation of the application failed.
#[derive(Debug, Clone, Copy, PartialEq, Eq, Structural)]
pub enum ApplicationFailure {
    /// Searching needs the socket, which is not bound.
    DiscoveryNotInitialized,
    /// Starting needs the socket, which is not bound.
    NotInitialized,
    /// The application already runs.
    AlreadyRunning,
    /// What came back for a call was not a response.
    InvalidResponseType,
    /// No response came back for a call in time.
    TimedOut,
    /// No node answered for the service.
    ServiceNotFound,
}

impl ApplicationFailure {
    /// The description of the failure.
    pub fn describe(&self) -> (s: String)
        ensures
            match self {
                ApplicationFailure::DiscoveryNotInitialized => s@ == "Service discovery not initialized"@,
                ApplicationFailure::NotInitialized => s@ == "Application not initialized"@,
                ApplicationFailure::AlreadyRunning => s@ == "Application already running"@,
                ApplicationFailure::InvalidResponseType => s@ == "Invalid response type"@,
                ApplicationFailure::TimedOut => s@ == "Method call timed out"@,
                ApplicationFailure::ServiceNotFound => s@ == "Service not found"@,
            },
    {
        match self {
            ApplicationFailure::DiscoveryNotInitialized => "Service discovery not initialized".to_owned(),
            ApplicationFailure::NotInitialized => "Application not initialized".to_owned(),
            ApplicationFailure::AlreadyRunning => "Application already running".to_owned(),
            ApplicationFailure::InvalidResponseType => "Invalid response type".to_owned(),
            ApplicationFailure::TimedOut => "Method call timed out".to_owned(),
            ApplicationFailure::ServiceNotFound => "Service not found".to_owned(),
        }
    }
}

/// What a datagram on the broadcast socket is.
pub enum Route {
    /// Shorter than a prefix; skipped.
    TooShort,
    /// A discovery packet, decoded if it decodes.
    Discovery(Option<DiscoveryMessage>),
    /// An application packet, decoded if it decodes.
    Application(Result<ApplicationMessage, DecodeError>),
    /// Some other prefix.
    Unknown(u16),
}

/// The state of the application on one node.
pub struct Application {
    config: ApplicationConfig,
    socket_bound: bool,
    server_started: bool,
    services_mapping: HashMap<u16, IpAddr>,
    offered_methods: Vec<(u16, u16)>,
    open_responses: HashSet<u16>,
}

impl Application {
    /// Where found services are.
    pub closed spec fn mapping(self) -> Map<u16, IpAddr> {
        self.services_mapping@
    }

    /// The (service, method) pairs offered.
    pub closed spec fn offered(self) -> Set<(u16, u16)> {
        self.offered_methods@.to_set()
    }

    /// The request IDs whose responses are awaited.
    pub closed spec fn awaited(self) -> Set<u16> {
        self.open_responses@
    }

    /// The settings.
    pub closed spec fn spec_config(self) -> ApplicationConfig {
        self.config
    }

    /// The socket is bound.
    pub closed spec fn initialized(self) -> bool {
        self.socket_bound
    }

    /// The receiving worker was started.
    pub closed spec fn running(self) -> bool {
        self.server_started
    }

    /// Everything but what was found, offered and awaited is as in `other`.
    pub open spec fn same_settings(self, other: Self) -> bool {
        &&& self.spec_config() == other.spec_config()
        &&& self.initialized() == other.initialized()
        &&& self.running() == other.running()
    }

    /// An application that knows no service and offers nothing.
    pub fn new(config: ApplicationConfig) -> (app: Self)
        ensures
            app.spec_config() == config,
            app.mapping() == Map::<u16, IpAddr>::empty(),
            app.offered() == Set::<(u16, u16)>::empty(),
            app.awaited() == Set::<u16>::empty(),
            !app.initialized() && !app.running(),
    {
        let app = Application {
            config,
            socket_bound: false,
            server_started: false,
            services_mapping: HashMap::new(),
            offered_methods: Vec::new(),
            open_responses: HashSet::new(),
        };
        assert(app.offered() =~= Set::<(u16, u16)>::empty());
        app
    }

    /// The settings.
    pub fn config(&self) -> (c: ApplicationConfig)
        ensures
            c == self.spec_config(),
    {
        self.config
    }

    /// Records that the socket is bound.
    pub fn complete_init(&mut self)
        ensures
            final(self).initialized(),
            final(self).running() == old(self).running(),
            final(self).spec_config() == old(self).spec_config(),
            final(self).mapping() == old(self).mapping(),
            final(self).offered() == old(self).offered(),
            final(self).awaited() == old(self).awaited(),
    {
        self.socket_bound = true;
    }

    /// The remembered address of a service.
    pub fn cached_service(&self, service_id: u16) -> (res: Option<IpAddr>)
        ensures
            res == if self.mapping().contains_key(service_id) {
                Some(self.mapping()[service_id])
            } else {
                None::<IpAddr>
            },
    {
        match self.services_mapping.get(&service_id) {
            Some(ip) => Some(*ip),
            None => None,
        }
    }

    /// The discovery request to broadcast for `service_id`; refused before
    /// the socket is bound.
    pub fn discovery_request(&self, service_id: u16) -> (res: Result<Vec<u8>, ApplicationFailure>)
        ensures
            !self.initialized() ==> res == Err::<Vec<u8>, ApplicationFailure>(
                ApplicationFailure::DiscoveryNotInitialized,
            ),
            self.initialized() ==> (res matches Ok(bytes) && bytes@
                == DiscoveryMessage::Request(service_id).spec_to_bytes()),
    {
        if !self.socket_bound {
            return Err(ApplicationFailure::DiscoveryNotInitialized);
        }
        Ok(DiscoveryMessage::Request(service_id).to_bytes())
    }

    /// Takes a datagram received from `src` while searching for
    /// `service_id`: the response naming the service is remembered.
    pub fn accept_discovery_response(&mut self, datagram: &[u8], service_id: u16, src: IpAddr) -> (found: bool)
        ensures
            found == (DiscoveryMessage::spec_from_bytes(datagram@) == Some(
                DiscoveryMessage::Response(service_id),
            )),
            final(self).mapping() == if found {
                old(self).mapping().insert(service_id, src)
            } else {
                old(self).mapping()
            },
            final(self).same_settings(*old(self)),
            final(self).offered() == old(self).offered(),
            final(self).awaited() == old(self).awaited(),
    {
        match DiscoveryMessage::from_bytes(datagram) {
            Some(DiscoveryMessage::Response(id)) => {
                if id == service_id {
                    self.services_mapping.insert(service_id, src);
                    true
                } else {
                    false
                }
            },
            _ => false,
        }
    }

    /// Whether another request follows after `attempts` unanswered ones.
    pub fn retry_after(&self, attempts: u32) -> (b: bool)
        ensures
            b == (attempts < self.spec_config().discovery_config.retries),
    {
        attempts < self.config.discovery_config.retries
    }

    /// Offers `method_id` of `service_id`; its handler stays with the caller.
    pub fn offer_method(&mut self, service_id: u16, method_id: u16) -> (res: Result<(), ApplicationFailure>)
        ensures
            res is Ok,
            final(self).offered() == old(self).offered().insert((service_id, method_id)),
            final(self).mapping() == old(self).mapping(),
            final(self).awaited() == old(self).awaited(),
            final(self).same_settings(*old(self)),
    {
        let mut i: usize = 0;
        while i < self.offered_methods.len()
            invariant
                i <= self.offered_methods@.len(),
                forall|k: int| 0 <= k < i ==> self.offered_methods@[k] != (service_id, method_id),
            decreases self.offered_methods@.len() - i,
        {
            let (s, m) = self.offered_methods[i];
            if s == service_id && m == method_id {
                proof {
                    assert(self.offered_methods@.contains((service_id, method_id)));
                    assert(self.offered() =~= old(self).offered().insert((service_id, method_id)));
                }
                return Ok(());
            }
            i = i + 1;
        }
        let ghost before = self.offered_methods@;
        self.offered_methods.push((service_id, method_id));
        proof {
            before.lemma_push_to_set_commute((service_id, method_id));
            assert(self.offered() =~= old(self).offered().insert((service_id, method_id)));
        }
        Ok(())
    }

    /// The request calling `method_id` of `service_id` with `data`, under a
    /// fresh random request ID; refused before the socket is bound.
    pub fn method_request(&self, service_id: u16, method_id: u16, data: Vec<u8>) -> (res: Result<ApplicationMessage, ApplicationFailure>)
        requires
            data@.len() + LENGTH_FIELD_BASE <= u32::MAX,
        ensures
            !self.initialized() ==> res == Err::<ApplicationMessage, ApplicationFailure>(
                ApplicationFailure::DiscoveryNotInitialized,
            ),
            self.initialized() ==> (res matches Ok(m) && frame_matches_but_id(
                m@,
                service_id,
                method_id,
                ApplicationMessageType::Request,
                ApplicationMessageReturnCode::Success,
                data@,
            )),
    {
        if !self.socket_bound {
            return Err(ApplicationFailure::DiscoveryNotInitialized);
        }
        Ok(
            ApplicationMessage::new(
                service_id,
                method_id,
                None,
                ApplicationMessageType::Request,
                ApplicationMessageReturnCode::Success,
                data,
            ),
        )
    }

    /// Records that the response to `request_id` is awaited.
    pub fn await_response(&mut self, request_id: u16)
        ensures
            final(self).awaited() == old(self).awaited().insert(request_id),
            final(self).mapping() == old(self).mapping(),
            final(self).offered() == old(self).offered(),
            final(self).same_settings(*old(self)),
    {
        self.open_responses.insert(request_id);
    }

    /// What a call receives: the payload of a response, which also ends the
    /// wait for it; anything else is an invalid response.
    pub fn accept_response(&mut self, response: &ApplicationMessage) -> (res: Result<Vec<u8>, ApplicationFailure>)
        ensures
            response.message_type == ApplicationMessageType::Response ==> (res matches Ok(p) && p@
                == response.payload@) && final(self).awaited() == old(self).awaited().remove(
                response.request_id,
            ),
            response.message_type != ApplicationMessageType::Response ==> res == Err::<
                Vec<u8>,
                ApplicationFailure,
            >(ApplicationFailure::InvalidResponseType) && final(self).awaited() == old(self).awaited(),
            final(self).mapping() == old(self).mapping(),
            final(self).offered() == old(self).offered(),
            final(self).same_settings(*old(self)),
    {
        if response.message_type == ApplicationMessageType::Response {
            self.open_responses.remove(&response.request_id);
            Ok(vstd::slice::slice_to_vec(response.payload.as_slice()))
        } else {
            Err(ApplicationFailure::InvalidResponseType)
        }
    }

    /// Starts the application: refused while it runs or before the socket
    /// is bound.
    pub fn start(&mut self) -> (res: Result<(), ApplicationFailure>)
        ensures
            old(self).running() ==> res == Err::<(), ApplicationFailure>(ApplicationFailure::AlreadyRunning)
                && final(self).running(),
            !old(self).running() && !old(self).initialized() ==> res == Err::<(), ApplicationFailure>(
                ApplicationFailure::NotInitialized,
            ) && !final(self).running(),
            !old(self).running() && old(self).initialized() ==> res is Ok && final(self).running(),
            final(self).initialized() == old(self).initialized(),
            final(self).spec_config() == old(self).spec_config(),
            final(self).mapping() == old(self).mapping(),
            final(self).offered() == old(self).offered(),
            final(self).awaited() == old(self).awaited(),
    {
        if self.server_started {
            return Err(ApplicationFailure::AlreadyRunning);
        }
        if !self.socket_bound {
            return Err(ApplicationFailure::NotInitialized);
        }
        self.server_started = true;
        Ok(())
    }

    /// Stops the receiving worker and gives up the socket.
    pub fn shutdown(&mut self)
        ensures
            !final(self).running(),
            !final(self).initialized(),
            final(self).spec_config() == old(self).spec_config(),
            final(self).mapping() == old(self).mapping(),
            final(self).offered() == old(self).offered(),
            final(self).awaited() == old(self).awaited(),
    {
        self.server_started = false;
        self.socket_bound = false;
    }
}

/// Sorts a datagram received on the broadcast socket by its prefix and
/// decodes it accordingly.
pub fn route_datagram(bytes: &[u8]) -> (route: Route)
    ensures
        bytes@.len() < 2 ==> route is TooShort,
        bytes@.len() >= 2 && (from_be16(bytes@) == SD_REQUEST_PREFIX || from_be16(bytes@)
            == SD_RESPONSE_PREFIX) ==> route == Route::Discovery(DiscoveryMessage::spec_from_bytes(bytes@)),
        bytes@.len() >= 2 && from_be16(bytes@) == APP_PREFIX ==> match route {
            Route::Application(Ok(m)) => spec_application_from_bytes(bytes@) == Ok::<ApplicationFrame, DecodeError>(m@),
            Route::Application(Err(e)) => spec_application_from_bytes(bytes@) == Err::<ApplicationFrame, DecodeError>(e),
            _ => false,
        },
        bytes@.len() >= 2 && from_be16(bytes@) != SD_REQUEST_PREFIX && from_be16(bytes@)
            != SD_RESPONSE_PREFIX && from_be16(bytes@) != APP_PREFIX ==> route == Route::Unknown(
            from_be16(bytes@),
        ),
{
    if bytes.len() < 2 {
        return Route::TooShort;
    }
    let prefix = read_be_u16(bytes, 0);
    assert(bytes@.subrange(0, 2)[0] == bytes@[0] && bytes@.subrange(0, 2)[1] == bytes@[1]);
    if prefix == SD_REQUEST_PREFIX || prefix == SD_RESPONSE_PREFIX {
        Route::Discovery(DiscoveryMessage::from_bytes(bytes))
    } else if prefix == APP_PREFIX {
        Route::Application(ApplicationMessage::from_bytes(bytes))
    } else {
        Route::Unknown(prefix)
    }
}

/// The response a node sends for service `id` is accepted by the node
/// searching for `id`, which then finds the service at the sender's address
/// without searching again.
pub proof fn lemma_found_service_remembered(app: Application, after: Application, id: u16, src: IpAddr)
    requires
        after.mapping() == if DiscoveryMessage::spec_from_bytes(
            DiscoveryMessage::Response(id).spec_to_bytes(),
        ) == Some(DiscoveryMessage::Response(id)) {
            app.mapping().insert(id, src)
        } else {
            app.mapping()
        },
    ensures
        DiscoveryMessage::Response(id).spec_to_bytes().len() == 4,
        after.mapping().contains_key(id),
        after.mapping()[id] == src,
{
    crate::packets::sd::lemma_discovery_id_roundtrip(DiscoveryMessage::Response(id));
}

} // verus!
