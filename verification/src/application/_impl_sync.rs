//! The state and decisions of a service application: which methods and
//! events it offers, who subscribes to its events, which of its requests
//! await a response, and what every received packet leads to.
//!
//! Method handlers, event handlers, response handlers, connections and
//! worker threads belong to the caller, which performs the dispatch this
//! module decides. Times are milliseconds of a monotonic clock read by the
//! caller.

use std::collections::{HashMap, HashSet};

use vstd::prelude::*;
use vstd::std_specs::hash::spec_hash_map_iter;
use vstd::std_specs::iter::IteratorSpec;

use crate::addr::IpAddr;
use crate::application::config::ServiceApplicationConfig;
use crate::application::message::{
    spec_error_to_bytes, spec_length_for, ApplicationFrame, ApplicationMessage,
    ApplicationMessageReturnCode, ApplicationMessageType, ApplicationResponseErrorMessage,
    LENGTH_FIELD_BASE,
};
use crate::codec::text_of_bytes;
use crate::text::{decimal_text, text_with_number};

verus! {

broadcast use vstd::std_specs::hash::group_hash_axioms;

/// Error code of a subscription to an event that is not offered.
pub const EVENT_NOT_OFFERED: u8 = 0x02;

/// Error code of a request for a method that is not offered.
pub const METHOD_NOT_FOUND: u8 = 0x03;

/// Error code handed to the response handler of a request that timed out.
pub const TIMEOUT: u8 = 0x04;

/// Largest payload an application packet can announce in its length field.
pub open spec fn payload_fits(len: nat) -> bool {
    len + LENGTH_FIELD_BASE <= u32::MAX
}

/// The UTF-8 encoding of a text takes at most four bytes per character.
pub proof fn lemma_utf8_len_bound(chars: Seq<char>)
    ensures
        vstd::utf8::encode_utf8(chars).len() <= 4 * chars.len(),
    decreases chars.len(),
{
    if chars.len() > 0 {
        lemma_utf8_len_bound(chars.drop_first());
    }
}

/// The deadline of a request awaiting its response.
#[derive(Debug, Clone, Copy, PartialEq, Eq, Structural)]
pub struct RequestTimeout {
    /// The request expires once the clock passes this time.
    pub deadline: u64,
}

impl RequestTimeout {
    /// A deadline `timeout_duration` after `now`.
    pub fn new(timeout_duration: u64, now: u64) -> (r: Self)
        requires
            now + timeout_duration <= u64::MAX,
        ensures
            r.deadline == now + timeout_duration,
    {
        Self { deadline: now + timeout_duration }
    }

    /// Whether the clock has passed the deadline.
    pub fn is_expired(&self, now: u64) -> (b: bool)
        ensures
            b == (now > self.deadline),
    {
        now > self.deadline
    }
}

/// What the caller has to do with a received packet.
pub enum Dispatch {
    /// Run the handler of the requested method on the request's payload and
    /// answer with [`ServiceApplication::respond_to_request`].
    InvokeMethod(ApplicationMessage),
    /// Send the packet to the address.
    Send(ApplicationMessage, IpAddr),
    /// Hand the outcome to the response handler of the request.
    CompleteRequest(u16, Result<Vec<u8>, ApplicationResponseErrorMessage>),
    /// Hand the payload to the handler of the subscribed event.
    DeliverEvent(u16, Vec<u8>),
    /// Nothing to do.
    Ignore,
}

/// Why the application cannot start.
#[derive(Debug, Clone, Copy, PartialEq, Eq, Structural)]
pub enum StartRefusal {
    /// The application already runs.
    AlreadyRunning,
    /// Discovery was not initialized first.
    DiscoveryNotInitialized,
}

/// A response to `request_id` with the given return code and payload.
pub open spec fn response_frame(
    service_id: u16,
    method_id: u16,
    request_id: u16,
    return_code: ApplicationMessageReturnCode,
    payload: Seq<u8>,
) -> ApplicationFrame {
    ApplicationFrame {
        service_id,
        method_id,
        request_id,
        message_type: ApplicationMessageType::Response,
        return_code,
        length: spec_length_for(payload.len()),
        payload,
    }
}

/// A failed response carrying `error_code` and `text`.
pub open spec fn error_response_frame(
    service_id: u16,
    method_id: u16,
    request_id: u16,
    error_code: u8,
    text: Seq<char>,
) -> ApplicationFrame {
    response_frame(
        service_id,
        method_id,
        request_id,
        ApplicationMessageReturnCode::Error,
        spec_error_to_bytes(error_code, text),
    )
}

/// The text of the error answering a request for a method that is not offered.
pub open spec fn method_not_found_text(method_id: u16) -> Seq<char> {
    "Method "@ + decimal_text(method_id) + " not found"@
}

/// The text of the error answering a subscription to an event that is not offered.
pub open spec fn event_not_offered_text(event_id: u16) -> Seq<char> {
    "Event "@ + decimal_text(event_id) + " not offered"@
}

/// `m` is a packet with every field given except the request ID, which is free.
pub open spec fn frame_matches_but_id(
    m: ApplicationFrame,
    service_id: u16,
    method_id: u16,
    message_type: ApplicationMessageType,
    return_code: ApplicationMessageReturnCode,
    payload: Seq<u8>,
) -> bool {
    &&& m.service_id == service_id
    &&& m.method_id == method_id
    &&& m.message_type == message_type
    &&& m.return_code == return_code
    &&& m.length == spec_length_for(payload.len())
    &&& m.payload == payload
}

/// The subscribers after `a` subscribes: appended unless already present.
pub open spec fn with_subscriber(subscribers: Seq<IpAddr>, a: IpAddr) -> Seq<IpAddr> {
    if subscribers.contains(a) {
        subscribers
    } else {
        subscribers.push(a)
    }
}

/// Holds of every address but `a`.
pub open spec fn other_than(a: IpAddr) -> spec_fn(IpAddr) -> bool {
    |x: IpAddr| x != a
}

/// The subscribers after `a` unsubscribes.
pub open spec fn without_subscriber(subscribers: Seq<IpAddr>, a: IpAddr) -> Seq<IpAddr> {
    subscribers.filter(other_than(a))
}

/// A subscriber list without `a` is unchanged by removing `a`.
proof fn lemma_without_absent(s: Seq<IpAddr>, a: IpAddr)
    requires
        !s.contains(a),
    ensures
        without_subscriber(s, a) == s,
    decreases s.len(),
{
    reveal(Seq::filter);
    if s.len() > 0 {
        assert(!s.drop_last().contains(a)) by {
            if s.drop_last().contains(a) {
                let k = choose|k: int| 0 <= k < s.drop_last().len() && s.drop_last()[k] == a;
                assert(s[k] == a);
            }
        }
        lemma_without_absent(s.drop_last(), a);
        assert(s.last() != a) by {
            assert(s[s.len() - 1] == s.last());
        }
        assert(s.drop_last().push(s.last()) =~= s);
    }
}

/// Removing position `i` of a sequence keeps it free of duplicates.
proof fn lemma_remove_keeps_distinct(s: Seq<IpAddr>, i: int)
    requires
        0 <= i < s.len(),
        s.no_duplicates(),
    ensures
        s.remove(i).no_duplicates(),
{
    let r = s.remove(i);
    assert forall|x: int, y: int| 0 <= x < y < r.len() implies r[x] != r[y] by {
        let xi = if x < i { x } else { x + 1 };
        let yi = if y < i { y } else { y + 1 };
        assert(r[x] == s[xi]);
        assert(r[y] == s[yi]);
    }
}

/// Removing the one occurrence of `a` from a sequence without duplicates
/// leaves the others in order.
proof fn lemma_remove_unique(s: Seq<IpAddr>, i: int, a: IpAddr)
    requires
        0 <= i < s.len(),
        s[i] == a,
        s.no_duplicates(),
    ensures
        s.remove(i) == without_subscriber(s, a),
        s.remove(i).no_duplicates(),
{
    lemma_remove_keeps_distinct(s, i);
    let front = s.take(i);
    let back = s.skip(i + 1);
    assert(!front.contains(a)) by {
        if front.contains(a) {
            let k = choose|k: int| 0 <= k < front.len() && front[k] == a;
            assert(s[k] == s[i]);
        }
    }
    assert(!back.contains(a)) by {
        if back.contains(a) {
            let k = choose|k: int| 0 <= k < back.len() && back[k] == a;
            assert(s[i + 1 + k] == s[i]);
        }
    }
    lemma_without_absent(front, a);
    lemma_without_absent(back, a);
    let pred = other_than(a);
    let mid = seq![a];
    assert(mid.filter(pred) =~= Seq::<IpAddr>::empty()) by {
        reveal(Seq::filter);
        assert(mid.drop_last() =~= Seq::<IpAddr>::empty());
    }
    assert(s == front + mid + back) by {
        assert(s =~= front + mid + back);
    }
    assert((front + mid).filter(pred) == front) by {
        Seq::filter_distributes_over_add(front, mid, pred);
        assert(front + Seq::<IpAddr>::empty() =~= front);
    }
    assert(s.filter(pred) == front + back) by {
        Seq::filter_distributes_over_add(front + mid, back, pred);
    }
    assert(s.remove(i) =~= front + back);
}

/// The notification of `event_id` carrying `payload`.
pub open spec fn notification_frame(service_id: u16, event_id: u16, payload: Seq<u8>) -> ApplicationFrame {
    ApplicationFrame {
        service_id,
        method_id: event_id,
        request_id: 0,
        message_type: ApplicationMessageType::Notification,
        return_code: ApplicationMessageReturnCode::Success,
        length: spec_length_for(payload.len()),
        payload,
    }
}

/// The IDs of the requests whose deadline lies before `now`.
pub open spec fn expired_ids(requests: Map<u16, u64>, now: u64) -> Set<u16> {
    requests.dom().filter(|id: u16| now > requests[id])
}

/// The keys, in order, of the entries of `entries` whose deadline lies before `now`.
pub open spec fn expired_keys(entries: Seq<(&u16, &RequestTimeout)>, now: u64) -> Seq<u16>
    decreases entries.len(),
{
    if entries.len() == 0 {
        Seq::empty()
    } else {
        let rest = expired_keys(entries.drop_last(), now);
        if now > entries.last().1.deadline {
            rest.push(*entries.last().0)
        } else {
            rest
        }
    }
}

/// A key is among the expired keys exactly when one of the entries has it
/// with a deadline before `now`.
proof fn lemma_expired_keys_members(entries: Seq<(&u16, &RequestTimeout)>, now: u64, x: u16)
    ensures
        expired_keys(entries, now).contains(x) <==> exists|j: int|
            0 <= j < entries.len() && *(#[trigger] entries[j]).0 == x && now > entries[j].1.deadline,
    decreases entries.len(),
{
    if entries.len() > 0 {
        let n = entries.len() - 1;
        let init = entries.drop_last();
        lemma_expired_keys_members(init, now, x);
        let rest = expired_keys(init, now);
        let e = expired_keys(entries, now);
        assert(entries[n] == entries.last());
        let pushed = now > entries.last().1.deadline;
        if pushed {
            assert(e == rest.push(*entries.last().0));
        } else {
            assert(e == rest);
        }
        if e.contains(x) {
            let k = choose|k: int| 0 <= k < e.len() && e[k] == x;
            if k < rest.len() {
                assert(rest[k] == x);
                assert(rest.contains(x));
                let j = choose|j: int|
                    0 <= j < init.len() && *(#[trigger] init[j]).0 == x && now > init[j].1.deadline;
                assert(entries[j] == init[j]);
            } else {
                assert(*entries[n].0 == x && now > entries[n].1.deadline);
            }
        }
        if exists|j: int|
            0 <= j < entries.len() && *(#[trigger] entries[j]).0 == x && now > entries[j].1.deadline {
            let j = choose|j: int|
                0 <= j < entries.len() && *(#[trigger] entries[j]).0 == x && now > entries[j].1.deadline;
            if j < n {
                assert(init[j] == entries[j]);
                assert(rest.contains(x));
                let k = choose|k: int| 0 <= k < rest.len() && rest[k] == x;
                assert(e[k] == x);
            } else {
                assert(e[rest.len() as int] == x);
            }
        }
    }
}

/// Entries with distinct keys give each expired key once.
proof fn lemma_expired_keys_distinct(entries: Seq<(&u16, &RequestTimeout)>, now: u64)
    requires
        forall|i: int, j: int|
            0 <= i < j < entries.len() ==> *(#[trigger] entries[i]).0 != *(#[trigger] entries[j]).0,
    ensures
        expired_keys(entries, now).no_duplicates(),
    decreases entries.len(),
{
    if entries.len() > 0 {
        let init = entries.drop_last();
        assert forall|i: int, j: int| 0 <= i < j < init.len() implies *(#[trigger] init[i]).0 != *(#[trigger] init[j]).0 by {
            assert(init[i] == entries[i] && init[j] == entries[j]);
        }
        lemma_expired_keys_distinct(init, now);
        let rest = expired_keys(init, now);
        let last = *entries.last().0;
        if now > entries.last().1.deadline {
            lemma_expired_keys_members(init, now, last);
            if rest.contains(last) {
                let j = choose|j: int| 0 <= j < init.len() && *(#[trigger] init[j]).0 == last && now > init[j].1.deadline;
                assert(init[j] == entries[j]);
                assert(entries[entries.len() - 1] == entries.last());
            }
            assert forall|i: int, j: int| 0 <= i < j < rest.push(last).len() implies rest.push(last)[i] != rest.push(last)[j] by {
                if j == rest.len() {
                    assert(rest.contains(rest[i]));
                }
            }
        }
    }
}

/// The state of one service application.
pub struct ServiceApplication {
    service_id: u16,
    config: ServiceApplicationConfig,
    offered_methods: HashSet<u16>,
    offered_events: HashMap<u16, Vec<IpAddr>>,
    subscribed_events: HashSet<u16>,
    open_requests: HashMap<u16, RequestTimeout>,
    discovery_initialized: bool,
    server_running: bool,
}

impl ServiceApplication {
    /// The IDs of the offered methods.
    pub closed spec fn methods(self) -> Set<u16> {
        self.offered_methods@
    }

    /// Each offered event with its subscribers, in the order they subscribed.
    pub closed spec fn events(self) -> Map<u16, Seq<IpAddr>> {
        Map::new(
            |id: u16| self.offered_events@.contains_key(id),
            |id: u16| self.offered_events@[id]@,
        )
    }

    /// The events this application subscribed to.
    pub closed spec fn subscriptions(self) -> Set<u16> {
        self.subscribed_events@
    }

    /// Each request awaiting a response, with its deadline.
    pub closed spec fn requests(self) -> Map<u16, u64> {
        Map::new(
            |id: u16| self.open_requests@.contains_key(id),
            |id: u16| self.open_requests@[id].deadline,
        )
    }

    /// This application's service ID.
    pub closed spec fn spec_service_id(self) -> u16 {
        self.service_id
    }

    /// The configuration.
    pub closed spec fn spec_config(self) -> ServiceApplicationConfig {
        self.config
    }

    /// Discovery was initialized.
    pub closed spec fn discovery_ready(self) -> bool {
        self.discovery_initialized
    }

    /// The application runs.
    pub closed spec fn running(self) -> bool {
        self.server_running
    }

    /// No event lists a subscriber twice.
    pub closed spec fn wf(self) -> bool {
        forall|id: u16| #[trigger]
            self.offered_events@.contains_key(id) ==> self.offered_events@[id]@.no_duplicates()
    }

    /// Everything but the offered events, subscriptions and open requests is as in `other`.
    pub open spec fn same_settings(self, other: Self) -> bool {
        &&& self.spec_service_id() == other.spec_service_id()
        &&& self.spec_config() == other.spec_config()
        &&& self.methods() == other.methods()
        &&& self.discovery_ready() == other.discovery_ready()
        &&& self.running() == other.running()
    }

    /// An application with default settings.
    pub fn new(service_id: u16) -> (app: Self)
        ensures
            app.wf(),
            app.spec_service_id() == service_id,
            app.methods() == Set::<u16>::empty(),
            app.events() == Map::<u16, Seq<IpAddr>>::empty(),
            app.subscriptions() == Set::<u16>::empty(),
            app.requests() == Map::<u16, u64>::empty(),
            !app.discovery_ready() && !app.running(),
    {
        Self::with_config(service_id, ServiceApplicationConfig::default())
    }

    /// An application with the given settings.
    pub fn with_config(service_id: u16, config: ServiceApplicationConfig) -> (app: Self)
        ensures
            app.wf(),
            app.spec_service_id() == service_id,
            app.spec_config() == config,
            app.methods() == Set::<u16>::empty(),
            app.events() == Map::<u16, Seq<IpAddr>>::empty(),
            app.subscriptions() == Set::<u16>::empty(),
            app.requests() == Map::<u16, u64>::empty(),
            !app.discovery_ready() && !app.running(),
    {
        let max_open_requests = config.max_open_requests;
        let app = Self {
            service_id,
            config,
            offered_methods: HashSet::with_capacity(8),
            offered_events: HashMap::with_capacity(8),
            subscribed_events: HashSet::with_capacity(8),
            open_requests: HashMap::with_capacity(max_open_requests),
            discovery_initialized: false,
            server_running: false,
        };
        assert(app.events() =~= Map::<u16, Seq<IpAddr>>::empty());
        assert(app.requests() =~= Map::<u16, u64>::empty());
        app
    }

    /// This application's service ID.
    pub fn service_id(&self) -> (id: u16)
        ensures
            id == self.spec_service_id(),
    {
        self.service_id
    }

    /// The configuration.
    pub fn config(&self) -> (c: &ServiceApplicationConfig)
        ensures
            *c == self.spec_config(),
    {
        &self.config
    }

    /// Whether the application runs.
    pub fn is_running(&self) -> (b: bool)
        ensures
            b == self.running(),
    {
        self.server_running
    }

    /// Records that the discovery component was initialized.
    pub fn init(&mut self)
        ensures
            final(self).discovery_ready(),
            final(self).running() == old(self).running(),
            final(self).methods() == old(self).methods(),
            final(self).events() == old(self).events(),
            final(self).subscriptions() == old(self).subscriptions(),
            final(self).requests() == old(self).requests(),
            final(self).spec_service_id() == old(self).spec_service_id(),
            final(self).spec_config() == old(self).spec_config(),
            final(self).wf() == old(self).wf(),
    {
        self.discovery_initialized = true;
    }

    /// Offers the method; its handler stays with the caller.
    pub fn offer_method(&mut self, method_id: u16)
        requires
            old(self).wf(),
        ensures
            final(self).methods() == old(self).methods().insert(method_id),
            final(self).events() == old(self).events(),
            final(self).subscriptions() == old(self).subscriptions(),
            final(self).requests() == old(self).requests(),
            final(self).running() == old(self).running(),
            final(self).discovery_ready() == old(self).discovery_ready(),
            final(self).spec_service_id() == old(self).spec_service_id(),
            final(self).spec_config() == old(self).spec_config(),
            final(self).wf(),
    {
        self.offered_methods.insert(method_id);
    }

    /// Offers the event with no subscribers (an event offered again loses its subscribers).
    pub fn offer_event(&mut self, event_id: u16)
        requires
            old(self).wf(),
        ensures
            final(self).wf(),
            final(self).same_settings(*old(self)),
            final(self).events() == old(self).events().insert(event_id, Seq::<IpAddr>::empty()),
            final(self).subscriptions() == old(self).subscriptions(),
            final(self).requests() == old(self).requests(),
    {
        self.offered_events.insert(event_id, Vec::new());
        proof {
            assert(self.events() =~= old(self).events().insert(event_id, Seq::<IpAddr>::empty()));
        }
    }

    /// Whether the response to `request_id` is awaited.
    pub fn is_awaiting(&self, request_id: u16) -> (b: bool)
        ensures
            b == self.requests().contains_key(request_id),
    {
        self.open_requests.contains_key(&request_id)
    }

    /// Whether `a` is among `subscribers`.
    fn has_subscriber(subscribers: &Vec<IpAddr>, a: IpAddr) -> (b: bool)
        ensures
            b == subscribers@.contains(a),
    {
        let mut i: usize = 0;
        while i < subscribers.len()
            invariant
                i <= subscribers@.len(),
                forall|k: int| 0 <= k < i ==> subscribers@[k] != a,
            decreases subscribers@.len() - i,
        {
            if subscribers[i] == a {
                return true;
            }
            i = i + 1;
        }
        false
    }

    /// A successful response to `request_id` carrying `payload`.
    pub fn create_response_packet(
        &self,
        service_id: u16,
        method_id: u16,
        request_id: u16,
        payload: Vec<u8>,
    ) -> (m: ApplicationMessage)
        requires
            payload_fits(payload@.len()),
        ensures
            m@ == response_frame(
                service_id,
                method_id,
                request_id,
                ApplicationMessageReturnCode::Success,
                payload@,
            ),
            m.service_id == service_id && m.method_id == method_id && m.request_id == request_id,
            m.message_type == ApplicationMessageType::Response,
            m.return_code == ApplicationMessageReturnCode::Success,
            m.payload@ == payload@,
    {
        let mut packet = ApplicationMessage::new(
            service_id,
            method_id,
            Some(request_id),
            ApplicationMessageType::Response,
            ApplicationMessageReturnCode::Success,
            Vec::new(),
        );
        packet.set_payload(payload);
        packet
    }

    /// A failed response to `request_id` carrying the error code and text.
    pub fn create_error_response_packet(
        &self,
        service_id: u16,
        method_id: u16,
        request_id: u16,
        error_code: u8,
        error_message: String,
    ) -> (m: ApplicationMessage)
        requires
            payload_fits(spec_error_to_bytes(error_code, error_message@).len()),
        ensures
            m@ == error_response_frame(service_id, method_id, request_id, error_code, error_message@),
            m.service_id == service_id && m.method_id == method_id && m.request_id == request_id,
            m.message_type == ApplicationMessageType::Response,
            m.return_code == ApplicationMessageReturnCode::Error,
    {
        let error = ApplicationResponseErrorMessage::new(error_code, error_message);
        ApplicationMessage::new(
            service_id,
            method_id,
            Some(request_id),
            ApplicationMessageType::Response,
            ApplicationMessageReturnCode::Error,
            error.to_bytes(),
        )
    }

    /// A short text fits an error payload.
    proof fn lemma_short_error_fits(error_code: u8, text: Seq<char>)
        requires
            text.len() <= 64,
        ensures
            payload_fits(spec_error_to_bytes(error_code, text).len()),
    {
        lemma_utf8_len_bound(text);
    }

    /// The outcome of a request: the method's handler runs if the method is
    /// offered, otherwise the sender is told that it is not found.
    pub open spec fn request_outcome(self, packet: ApplicationFrame, addr: IpAddr, res: Dispatch) -> bool {
        if self.methods().contains(packet.method_id) {
            res matches Dispatch::InvokeMethod(p) && p@ == packet
        } else {
            res matches Dispatch::Send(m, a) && a == addr && m@ == error_response_frame(
                packet.service_id,
                packet.method_id,
                packet.request_id,
                METHOD_NOT_FOUND,
                method_not_found_text(packet.method_id),
            ) && m.service_id == packet.service_id && m.method_id == packet.method_id && m.request_id
                == packet.request_id
        }
    }

    /// Handles a request from `addr`.
    pub fn handle_request(&self, packet: ApplicationMessage, addr: IpAddr) -> (res: Dispatch)
        ensures
            self.request_outcome(packet@, addr, res),
    {
        if self.offered_methods.contains(&packet.method_id) {
            Dispatch::InvokeMethod(packet)
        } else {
            let text = text_with_number("Method ", packet.method_id, " not found");
            proof {
                reveal_strlit("Method ");
                reveal_strlit(" not found");
                crate::text::lemma_decimal_len(packet.method_id as nat);
                Self::lemma_short_error_fits(METHOD_NOT_FOUND, text@);
            }
            Dispatch::Send(
                self.create_error_response_packet(
                    packet.service_id,
                    packet.method_id,
                    packet.request_id,
                    METHOD_NOT_FOUND,
                    text,
                ),
                addr,
            )
        }
    }

    /// The response to an invoked request: the handler's data on success,
    /// its error payload on failure.
    pub fn respond_to_request(
        &self,
        request: &ApplicationMessage,
        result: Result<Vec<u8>, ApplicationResponseErrorMessage>,
    ) -> (m: ApplicationMessage)
        requires
            match result {
                Ok(data) => payload_fits(data@.len()),
                Err(e) => payload_fits(spec_error_to_bytes(e.error_code, e.error_message@).len()),
            },
        ensures
            match result {
                Ok(data) => m@ == response_frame(
                    request.service_id,
                    request.method_id,
                    request.request_id,
                    ApplicationMessageReturnCode::Success,
                    data@,
                ),
                Err(e) => m@ == error_response_frame(
                    request.service_id,
                    request.method_id,
                    request.request_id,
                    e.error_code,
                    e.error_message@,
                ),
            },
            m.service_id == request.service_id,
            m.method_id == request.method_id,
            m.request_id == request.request_id,
            m.message_type == ApplicationMessageType::Response,
            m.return_code == if result is Ok {
                ApplicationMessageReturnCode::Success
            } else {
                ApplicationMessageReturnCode::Error
            },
    {
        match result {
            Ok(response_data) => self.create_response_packet(
                request.service_id,
                request.method_id,
                request.request_id,
                response_data,
            ),
            Err(err) => ApplicationMessage::new(
                request.service_id,
                request.method_id,
                Some(request.request_id),
                ApplicationMessageType::Response,
                ApplicationMessageReturnCode::Error,
                err.to_bytes(),
            ),
        }
    }

    /// The outcome of a response: the awaiting request is closed and its
    /// handler gets the payload, or the decoded error payload; a response
    /// to no open request is ignored.
    pub open spec fn response_outcome(self, after: Self, packet: ApplicationFrame, res: Dispatch) -> bool {
        &&& after.same_settings(self)
        &&& after.events() == self.events()
        &&& after.subscriptions() == self.subscriptions()
        &&& if self.requests().contains_key(packet.request_id) {
            &&& after.requests() == self.requests().remove(packet.request_id)
            &&& if packet.return_code == ApplicationMessageReturnCode::Success {
                res matches Dispatch::CompleteRequest(id, Ok(p)) && id == packet.request_id && p@
                    == packet.payload
            } else {
                res matches Dispatch::CompleteRequest(id, Err(e)) && id == packet.request_id
                    && e.error_code == packet.payload[0] && e.error_message@ == text_of_bytes(
                    packet.payload.skip(1),
                )
            }
        } else {
            &&& after.requests() == self.requests()
            &&& res is Ignore
        }
    }

    /// A failed response to an open request must carry an error payload
    /// (its decoding is otherwise not defined).
    pub open spec fn response_acceptable(self, packet: ApplicationFrame) -> bool {
        self.requests().contains_key(packet.request_id) && packet.return_code
            != ApplicationMessageReturnCode::Success ==> packet.payload.len() > 0
    }

    /// Handles a response to one of this application's requests.
    pub fn handle_response(&mut self, packet: ApplicationMessage) -> (res: Dispatch)
        requires
            old(self).wf(),
            old(self).response_acceptable(packet@),
        ensures
            final(self).wf(),
            old(self).response_outcome(*final(self), packet@, res),
    {
        match self.open_requests.remove(&packet.request_id) {
            Some(_) => {
                proof {
                    assert(self.requests() =~= old(self).requests().remove(packet.request_id));
                }
                if packet.return_code == ApplicationMessageReturnCode::Success {
                    Dispatch::CompleteRequest(packet.request_id, Ok(packet.payload))
                } else {
                    let error_message = ApplicationResponseErrorMessage::from_bytes(
                        packet.payload.as_slice(),
                    );
                    match error_message {
                        Ok(e) => Dispatch::CompleteRequest(packet.request_id, Err(e)),
                        Err(_) => Dispatch::Ignore,
                    }
                }
            },
            None => {
                proof {
                    assert(self.requests() =~= old(self).requests());
                }
                Dispatch::Ignore
            },
        }
    }

    /// The outcome of a notification: the subscribed event's handler gets
    /// the payload; a notification of an event not subscribed to is
    /// answered with an unsubscription.
    pub open spec fn notification_outcome(self, packet: ApplicationFrame, addr: IpAddr, res: Dispatch) -> bool {
        if self.subscriptions().contains(packet.method_id) {
            res matches Dispatch::DeliverEvent(id, p) && id == packet.method_id && p@ == packet.payload
        } else {
            res matches Dispatch::Send(m, a) && a == addr && frame_matches_but_id(
                m@,
                self.spec_service_id(),
                packet.method_id,
                ApplicationMessageType::Unsubscribe,
                ApplicationMessageReturnCode::Success,
                Seq::<u8>::empty(),
            )
        }
    }

    /// Handles a notification of an event from `addr`.
    pub fn handle_notification(&self, packet: ApplicationMessage, addr: IpAddr) -> (res: Dispatch)
        ensures
            self.notification_outcome(packet@, addr, res),
    {
        if self.subscribed_events.contains(&packet.method_id) {
            Dispatch::DeliverEvent(packet.method_id, packet.payload)
        } else {
            let unsubscribe_packet = ApplicationMessage::new(
                self.service_id,
                packet.method_id,
                None,
                ApplicationMessageType::Unsubscribe,
                ApplicationMessageReturnCode::Success,
                Vec::new(),
            );
            Dispatch::Send(unsubscribe_packet, addr)
        }
    }

    /// The outcome of a subscription: the subscriber is recorded and told
    /// so if the event is offered, and told that it is not offered otherwise.
    pub open spec fn subscription_outcome(
        self,
        after: Self,
        packet: ApplicationFrame,
        addr: IpAddr,
        res: Dispatch,
    ) -> bool {
        &&& after.same_settings(self)
        &&& after.subscriptions() == self.subscriptions()
        &&& after.requests() == self.requests()
        &&& if self.events().contains_key(packet.method_id) {
            &&& after.events() == self.events().insert(
                packet.method_id,
                with_subscriber(self.events()[packet.method_id], addr),
            )
            &&& res matches Dispatch::Send(m, a) && a == addr && m@ == response_frame(
                packet.service_id,
                packet.method_id,
                packet.request_id,
                ApplicationMessageReturnCode::Success,
                Seq::<u8>::empty(),
            ) && m.service_id == packet.service_id && m.method_id == packet.method_id && m.request_id
                == packet.request_id
        } else {
            &&& after.events() == self.events()
            &&& res matches Dispatch::Send(m, a) && a == addr && m@ == error_response_frame(
                packet.service_id,
                packet.method_id,
                packet.request_id,
                EVENT_NOT_OFFERED,
                event_not_offered_text(packet.method_id),
            ) && m.service_id == packet.service_id && m.method_id == packet.method_id && m.request_id
                == packet.request_id
        }
    }

    /// Handles a subscription request from `addr`.
    pub fn handle_subscription(&mut self, packet: ApplicationMessage, addr: IpAddr) -> (res: Dispatch)
        requires
            old(self).wf(),
        ensures
            final(self).wf(),
            old(self).subscription_outcome(*final(self), packet@, addr, res),
    {
        match self.offered_events.remove(&packet.method_id) {
            Some(mut subscribers) => {
                let ghost before = subscribers@;
                if !Self::has_subscriber(&subscribers, addr) {
                    subscribers.push(addr);
                }
                proof {
                    assert(old(self).offered_events@[packet.method_id]@ == before);
                    assert(subscribers@ == with_subscriber(before, addr));
                    if !before.contains(addr) {
                        assert forall|i: int, j: int|
                            0 <= i < j < subscribers@.len() implies subscribers@[i]
                            != subscribers@[j] by {
                            if j == subscribers@.len() - 1 {
                                assert(before.contains(subscribers@[i]));
                            }
                        }
                    }
                }
                self.offered_events.insert(packet.method_id, subscribers);
                proof {
                    assert(self.events() =~= old(self).events().insert(
                        packet.method_id,
                        with_subscriber(old(self).events()[packet.method_id], addr),
                    ));
                }
                Dispatch::Send(
                    self.create_response_packet(
                        packet.service_id,
                        packet.method_id,
                        packet.request_id,
                        Vec::new(),
                    ),
                    addr,
                )
            },
            None => {
                proof {
                    assert(self.events() =~= old(self).events());
                }
                let text = text_with_number("Event ", packet.method_id, " not offered");
                proof {
                    reveal_strlit("Event ");
                    reveal_strlit(" not offered");
                    crate::text::lemma_decimal_len(packet.method_id as nat);
                    Self::lemma_short_error_fits(EVENT_NOT_OFFERED, text@);
                }
                Dispatch::Send(
                    self.create_error_response_packet(
                        packet.service_id,
                        packet.method_id,
                        packet.request_id,
                        EVENT_NOT_OFFERED,
                        text,
                    ),
                    addr,
                )
            },
        }
    }

    /// The outcome of an unsubscription: the sender stops being a
    /// subscriber of the event.
    pub open spec fn unsubscription_outcome(self, after: Self, packet: ApplicationFrame, addr: IpAddr) -> bool {
        &&& after.same_settings(self)
        &&& after.subscriptions() == self.subscriptions()
        &&& after.requests() == self.requests()
        &&& after.events() == if self.events().contains_key(packet.method_id) {
            self.events().insert(
                packet.method_id,
                without_subscriber(self.events()[packet.method_id], addr),
            )
        } else {
            self.events()
        }
    }

    /// Handles an unsubscription from `addr`.
    pub fn handle_unsubscription(&mut self, packet: ApplicationMessage, addr: IpAddr)
        requires
            old(self).wf(),
        ensures
            final(self).wf(),
            old(self).unsubscription_outcome(*final(self), packet@, addr),
    {
        match self.offered_events.remove(&packet.method_id) {
            Some(mut subscribers) => {
                let ghost before = subscribers@;
                proof {
                    assert(old(self).offered_events@[packet.method_id]@ == before);
                }
                let mut i: usize = 0;
                while i < subscribers.len()
                    invariant
                        subscribers@ == before,
                        i <= before.len(),
                        forall|k: int| 0 <= k < i ==> before[k] != addr,
                    ensures
                        i < before.len() ==> before[i as int] == addr,
                    decreases before.len() - i,
                {
                    if subscribers[i] == addr {
                        break;
                    }
                    i = i + 1;
                }
                if i < subscribers.len() {
                    subscribers.remove(i);
                    proof {
                        lemma_remove_unique(before, i as int, addr);
                    }
                } else {
                    proof {
                        lemma_without_absent(before, addr);
                    }
                }
                self.offered_events.insert(packet.method_id, subscribers);
                proof {
                    assert(self.events() =~= old(self).events().insert(
                        packet.method_id,
                        without_subscriber(old(self).events()[packet.method_id], addr),
                    ));
                }
            },
            None => {
                proof {
                    assert(self.events() =~= old(self).events());
                }
            },
        }
    }

    /// Everything is as in `other`.
    pub open spec fn unchanged(self, other: Self) -> bool {
        &&& self.same_settings(other)
        &&& self.events() == other.events()
        &&& self.subscriptions() == other.subscriptions()
        &&& self.requests() == other.requests()
    }

    /// Notifies every subscriber of the event, in the order they subscribed:
    /// one notification packet per subscriber. Nothing is sent while the
    /// application does not run or when the event is not offered.
    pub fn notify(&self, event_id: u16, payload: Vec<u8>) -> (out: Vec<(ApplicationMessage, IpAddr)>)
        requires
            payload_fits(payload@.len()),
        ensures
            if self.running() && self.events().contains_key(event_id) {
                &&& out@.len() == self.events()[event_id].len()
                &&& forall|i: int|
                    0 <= i < out@.len() ==> (#[trigger] out@[i]).1 == self.events()[event_id][i]
                        && out@[i].0@ == notification_frame(self.spec_service_id(), event_id, payload@)
            } else {
                out@.len() == 0
            },
    {
        let mut out: Vec<(ApplicationMessage, IpAddr)> = Vec::new();
        if !self.server_running {
            return out;
        }
        match self.offered_events.get(&event_id) {
            None => out,
            Some(subscribers) => {
                proof {
                    assert(subscribers@ == self.events()[event_id]);
                }
                let mut i: usize = 0;
                while i < subscribers.len()
                    invariant
                        i <= subscribers@.len(),
                        subscribers@ == self.events()[event_id],
                        payload_fits(payload@.len()),
                        out@.len() == i,
                        forall|k: int|
                            0 <= k < i ==> (#[trigger] out@[k]).1 == subscribers@[k] && out@[k].0@
                                == notification_frame(self.service_id, event_id, payload@),
                    decreases subscribers@.len() - i,
                {
                    let packet = ApplicationMessage::new(
                        self.service_id,
                        event_id,
                        Some(0),
                        ApplicationMessageType::Notification,
                        ApplicationMessageReturnCode::Success,
                        vstd::slice::slice_to_vec(payload.as_slice()),
                    );
                    out.push((packet, subscribers[i]));
                    i = i + 1;
                }
                out
            },
        }
    }

    /// The request calling `method_id` with `payload`, under a fresh random
    /// request ID; none while the application does not run. The caller
    /// resolves the target service, sends the packet and then records it
    /// with [`Self::track_method_call`].
    pub fn call_method(&self, method_id: u16, payload: Vec<u8>) -> (r: Option<ApplicationMessage>)
        requires
            payload_fits(payload@.len()),
        ensures
            r is Some <==> self.running(),
            r matches Some(m) ==> frame_matches_but_id(
                m@,
                self.spec_service_id(),
                method_id,
                ApplicationMessageType::Request,
                ApplicationMessageReturnCode::Success,
                payload@,
            ),
    {
        if !self.server_running {
            return None;
        }
        Some(
            ApplicationMessage::new(
                self.service_id,
                method_id,
                None,
                ApplicationMessageType::Request,
                ApplicationMessageReturnCode::Success,
                payload,
            ),
        )
    }

    /// Records a request awaiting its response until `now + timeout`.
    fn track_request(&mut self, request_id: u16, timeout: u64, now: u64)
        requires
            old(self).wf(),
            now + timeout <= u64::MAX,
        ensures
            final(self).wf(),
            final(self).same_settings(*old(self)),
            final(self).events() == old(self).events(),
            final(self).subscriptions() == old(self).subscriptions(),
            final(self).requests() == old(self).requests().insert(request_id, (now + timeout) as u64),
    {
        self.open_requests.insert(request_id, RequestTimeout::new(timeout, now));
        proof {
            assert(self.requests() =~= old(self).requests().insert(request_id, (now + timeout) as u64));
        }
    }

    /// Records a sent method call, which expires after the configured
    /// method-call timeout.
    pub fn track_method_call(&mut self, request_id: u16, now: u64)
        requires
            old(self).wf(),
            now + old(self).spec_config().method_call_timeout <= u64::MAX,
        ensures
            final(self).wf(),
            final(self).same_settings(*old(self)),
            final(self).events() == old(self).events(),
            final(self).subscriptions() == old(self).subscriptions(),
            final(self).requests() == old(self).requests().insert(
                request_id,
                (now + old(self).spec_config().method_call_timeout) as u64,
            ),
    {
        let timeout = self.config.method_call_timeout;
        self.track_request(request_id, timeout, now);
    }

    /// The subscription request for `event_id`, under a fresh random request ID.
    pub fn subscription_request(&self, event_id: u16) -> (m: ApplicationMessage)
        ensures
            frame_matches_but_id(
                m@,
                self.spec_service_id(),
                event_id,
                ApplicationMessageType::Subscribe,
                ApplicationMessageReturnCode::Success,
                Seq::<u8>::empty(),
            ),
    {
        ApplicationMessage::new(
            self.service_id,
            event_id,
            None,
            ApplicationMessageType::Subscribe,
            ApplicationMessageReturnCode::Success,
            Vec::new(),
        )
    }

    /// Records a sent subscription request, which expires after the
    /// configured subscription timeout.
    pub fn track_subscription(&mut self, request_id: u16, now: u64)
        requires
            old(self).wf(),
            now + old(self).spec_config().subscription_timeout <= u64::MAX,
        ensures
            final(self).wf(),
            final(self).same_settings(*old(self)),
            final(self).events() == old(self).events(),
            final(self).subscriptions() == old(self).subscriptions(),
            final(self).requests() == old(self).requests().insert(
                request_id,
                (now + old(self).spec_config().subscription_timeout) as u64,
            ),
    {
        let timeout = self.config.subscription_timeout;
        self.track_request(request_id, timeout, now);
    }

    /// Stops waiting for the response to `request_id`.
    pub fn forget_request(&mut self, request_id: u16)
        requires
            old(self).wf(),
        ensures
            final(self).wf(),
            final(self).same_settings(*old(self)),
            final(self).events() == old(self).events(),
            final(self).subscriptions() == old(self).subscriptions(),
            final(self).requests() == old(self).requests().remove(request_id),
    {
        self.open_requests.remove(&request_id);
        proof {
            assert(self.requests() =~= old(self).requests().remove(request_id));
        }
    }

    /// Records the subscription to `event_id` once the remote service confirmed it.
    pub fn subscribe(&mut self, event_id: u16)
        requires
            old(self).wf(),
        ensures
            final(self).wf(),
            final(self).same_settings(*old(self)),
            final(self).events() == old(self).events(),
            final(self).subscriptions() == old(self).subscriptions().insert(event_id),
            final(self).requests() == old(self).requests(),
    {
        self.subscribed_events.insert(event_id);
    }

    /// Drops the subscription to `event_id` and gives the unsubscription
    /// request to send to the service offering it.
    pub fn unsubscribe(&mut self, event_id: u16) -> (m: ApplicationMessage)
        requires
            old(self).wf(),
        ensures
            final(self).wf(),
            final(self).same_settings(*old(self)),
            final(self).events() == old(self).events(),
            final(self).subscriptions() == old(self).subscriptions().remove(event_id),
            final(self).requests() == old(self).requests(),
            frame_matches_but_id(
                m@,
                old(self).spec_service_id(),
                event_id,
                ApplicationMessageType::Unsubscribe,
                ApplicationMessageReturnCode::Success,
                Seq::<u8>::empty(),
            ),
    {
        self.subscribed_events.remove(&event_id);
        ApplicationMessage::new(
            self.service_id,
            event_id,
            None,
            ApplicationMessageType::Unsubscribe,
            ApplicationMessageReturnCode::Success,
            Vec::new(),
        )
    }

    /// The error handed to the response handler of a request that timed out.
    pub fn timeout_error() -> (e: ApplicationResponseErrorMessage)
        ensures
            e.error_code == TIMEOUT,
            e.error_message@ == "Request timed out"@,
    {
        ApplicationResponseErrorMessage::new(TIMEOUT, String::from_str("Request timed out"))
    }

    /// Routes a received packet to the handler of its type.
    pub fn process_message(&mut self, packet: ApplicationMessage, addr: IpAddr) -> (res: Dispatch)
        requires
            old(self).wf(),
            packet@.message_type == ApplicationMessageType::Response ==> old(
                self,
            ).response_acceptable(packet@),
        ensures
            final(self).wf(),
            match packet@.message_type {
                ApplicationMessageType::Request => final(self).unchanged(*old(self))
                    && old(self).request_outcome(packet@, addr, res),
                ApplicationMessageType::Response => old(self).response_outcome(
                    *final(self),
                    packet@,
                    res,
                ),
                ApplicationMessageType::Notification => final(self).unchanged(*old(self))
                    && old(self).notification_outcome(packet@, addr, res),
                ApplicationMessageType::Subscribe => old(self).subscription_outcome(
                    *final(self),
                    packet@,
                    addr,
                    res,
                ),
                ApplicationMessageType::Unsubscribe => old(self).unsubscription_outcome(
                    *final(self),
                    packet@,
                    addr,
                ) && res is Ignore,
                ApplicationMessageType::INVALID => final(self).unchanged(*old(self)) && res is Ignore,
            },
    {
        match packet.message_type {
            ApplicationMessageType::Request => self.handle_request(packet, addr),
            ApplicationMessageType::Response => self.handle_response(packet),
            ApplicationMessageType::Notification => self.handle_notification(packet, addr),
            ApplicationMessageType::Subscribe => self.handle_subscription(packet, addr),
            ApplicationMessageType::Unsubscribe => {
                self.handle_unsubscription(packet, addr);
                Dispatch::Ignore
            },
            ApplicationMessageType::INVALID => Dispatch::Ignore,
        }
    }

    /// Starts the application: refused while it runs or before discovery
    /// was initialized.
    pub fn start(&mut self) -> (r: Result<(), StartRefusal>)
        requires
            old(self).wf(),
        ensures
            final(self).wf(),
            final(self).events() == old(self).events(),
            final(self).subscriptions() == old(self).subscriptions(),
            final(self).requests() == old(self).requests(),
            final(self).methods() == old(self).methods(),
            final(self).spec_service_id() == old(self).spec_service_id(),
            final(self).spec_config() == old(self).spec_config(),
            final(self).discovery_ready() == old(self).discovery_ready(),
            old(self).running() ==> r == Err::<(), StartRefusal>(StartRefusal::AlreadyRunning)
                && final(self).running(),
            !old(self).running() && !old(self).discovery_ready() ==> r == Err::<(), StartRefusal>(
                StartRefusal::DiscoveryNotInitialized,
            ) && !final(self).running(),
            !old(self).running() && old(self).discovery_ready() ==> r is Ok && final(self).running(),
    {
        if self.server_running {
            return Err(StartRefusal::AlreadyRunning);
        }
        if !self.discovery_initialized {
            return Err(StartRefusal::DiscoveryNotInitialized);
        }
        self.server_running = true;
        Ok(())
    }

    /// Stops the application and forgets every method, event, subscription
    /// and open request; discovery has to be initialized again.
    pub fn shutdown(&mut self)
        ensures
            final(self).wf(),
            !final(self).running(),
            !final(self).discovery_ready(),
            final(self).methods() == Set::<u16>::empty(),
            final(self).events() == Map::<u16, Seq<IpAddr>>::empty(),
            final(self).subscriptions() == Set::<u16>::empty(),
            final(self).requests() == Map::<u16, u64>::empty(),
            final(self).spec_service_id() == old(self).spec_service_id(),
            final(self).spec_config() == old(self).spec_config(),
    {
        self.server_running = false;
        self.discovery_initialized = false;
        self.offered_events.clear();
        self.subscribed_events.clear();
        self.open_requests.clear();
        self.offered_methods.clear();
        proof {
            assert(self.events() =~= Map::<u16, Seq<IpAddr>>::empty());
            assert(self.requests() =~= Map::<u16, u64>::empty());
        }
    }

    /// Closes every request whose deadline lies before `now` and gives
    /// their IDs, each once; their response handlers get [`Self::timeout_error`].
    pub fn expire_requests(&mut self, now: u64) -> (expired: Vec<u16>)
        requires
            old(self).wf(),
        ensures
            final(self).wf(),
            final(self).same_settings(*old(self)),
            final(self).events() == old(self).events(),
            final(self).subscriptions() == old(self).subscriptions(),
            expired@.no_duplicates(),
            expired@.to_set() == expired_ids(old(self).requests(), now),
            final(self).requests() == old(self).requests().remove_keys(
                expired_ids(old(self).requests(), now),
            ),
    {
        let ghost m = self.open_requests@;
        let ghost entries = spec_hash_map_iter(&self.open_requests).remaining();
        let ghost mut count: int = 0;
        let mut expired: Vec<u16> = Vec::new();
        for entry in it: self.open_requests.iter()
            invariant
                m == self.open_requests@,
                it.seq() == entries,
                entries.no_duplicates(),
                count == it.index(),
                expired@ == expired_keys(entries.take(count), now),
        {
            let (id, timeout) = entry;
            proof {
                assert(entries.take(count + 1).drop_last() =~= entries.take(count));
            }
            if timeout.is_expired(now) {
                expired.push(*id);
            }
            proof {
                count = count + 1;
            }
        }
        proof {
            assert(entries.take(count) =~= entries);
            assert forall|i: int, j: int|
                0 <= i < j < entries.len() implies *(#[trigger] entries[i]).0 != *(#[trigger] entries[j]).0 by {
                if *entries[i].0 == *entries[j].0 {
                    assert(m.contains_key(*entries[i].0) && m[*entries[i].0] == *entries[i].1);
                    assert(m.contains_key(*entries[j].0) && m[*entries[j].0] == *entries[j].1);
                    assert(entries[i] == entries[j]);
                }
            }
            lemma_expired_keys_distinct(entries, now);
            assert forall|x: u16| #[trigger] expired@.contains(x) == expired_ids(old(self).requests(), now).contains(x) by {
                lemma_expired_keys_members(entries, now, x);
                if m.contains_key(x) {
                    assert(entries.contains((&x, &m[x])));
                }
                if expired@.contains(x) {
                    let j = choose|j: int| 0 <= j < entries.len() && *(#[trigger] entries[j]).0 == x && now > entries[j].1.deadline;
                    assert(m.contains_key(*entries[j].0) && m[*entries[j].0] == *entries[j].1);
                }
            }
            assert(expired@.to_set() =~= expired_ids(old(self).requests(), now));
        }
        let mut i: usize = 0;
        while i < expired.len()
            invariant
                i <= expired@.len(),
                self.open_requests@ == m.remove_keys(expired@.take(i as int).to_set()),
                self.same_settings(*old(self)),
                self.offered_events@ == old(self).offered_events@,
                self.subscribed_events@ == old(self).subscribed_events@,
            decreases expired@.len() - i,
        {
            self.open_requests.remove(&expired[i]);
            proof {
                assert(expired@.take(i + 1) =~= expired@.take(i as int).push(expired@[i as int]));
                expired@.take(i as int).lemma_push_to_set_commute(expired@[i as int]);
                assert(self.open_requests@ =~= m.remove_keys(expired@.take(i + 1).to_set()));
            }
            i = i + 1;
        }
        proof {
            assert(expired@.take(i as int) =~= expired@);
            assert(self.requests() =~= old(self).requests().remove_keys(expired_ids(old(self).requests(), now)));
        }
        expired
    }
}


/// A client that subscribed to an offered event is among its subscribers
/// exactly once, so a notification of the event reaches it exactly once.
pub proof fn lemma_subscriber_notified_once(
    app: ServiceApplication,
    after: ServiceApplication,
    packet: ApplicationFrame,
    addr: IpAddr,
    res: Dispatch,
)
    requires
        app.wf(),
        after.wf(),
        app.subscription_outcome(after, packet, addr, res),
        app.events().contains_key(packet.method_id),
    ensures
        after.events().contains_key(packet.method_id),
        after.events()[packet.method_id].contains(addr),
        forall|i: int, j: int|
            0 <= i < j < after.events()[packet.method_id].len() ==> after.events()[packet.method_id][i]
                != after.events()[packet.method_id][j],
{
    let s = app.events()[packet.method_id];
    if !s.contains(addr) {
        assert(s.push(addr)[s.len() as int] == addr);
    }
    assert(after.events().contains_key(packet.method_id));
    assert(after.offered_events@.contains_key(packet.method_id));
    assert(after.offered_events@[packet.method_id]@.no_duplicates());
}

/// Subscribing again changes nothing.
pub proof fn lemma_subscribe_idempotent(subscribers: Seq<IpAddr>, addr: IpAddr)
    ensures
        with_subscriber(with_subscriber(subscribers, addr), addr) == with_subscriber(subscribers, addr),
{
    if !subscribers.contains(addr) {
        assert(subscribers.push(addr)[subscribers.len() as int] == addr);
    }
}

/// After an unsubscription the sender is no subscriber of the event.
pub proof fn lemma_unsubscribed_not_notified(
    app: ServiceApplication,
    after: ServiceApplication,
    packet: ApplicationFrame,
    addr: IpAddr,
)
    requires
        app.unsubscription_outcome(after, packet, addr),
        app.events().contains_key(packet.method_id),
    ensures
        !after.events()[packet.method_id].contains(addr),
{
    let s = app.events()[packet.method_id];
    let f = without_subscriber(s, addr);
    if f.contains(addr) {
        let k = choose|k: int| 0 <= k < f.len() && f[k] == addr;
        s.lemma_filter_pred(other_than(addr), k);
    }
}

/// A response closes its request: the request is no longer open, and a
/// second response with the same request ID is ignored.
pub proof fn lemma_response_closes_request(
    app: ServiceApplication,
    after: ServiceApplication,
    packet: ApplicationFrame,
    res: Dispatch,
    again: ServiceApplication,
    second: ApplicationFrame,
    res2: Dispatch,
)
    requires
        app.requests().contains_key(packet.request_id),
        app.response_outcome(after, packet, res),
        second.request_id == packet.request_id,
        after.response_outcome(again, second, res2),
    ensures
        res is CompleteRequest,
        !after.requests().contains_key(packet.request_id),
        res2 is Ignore,
        again.requests() == after.requests(),
{
}

/// A request refused with an error code and text reaches the response
/// handler of the caller as that very code and text.
pub proof fn lemma_error_response_delivered(
    app: ServiceApplication,
    after: ServiceApplication,
    service_id: u16,
    method_id: u16,
    request_id: u16,
    error_code: u8,
    text: Seq<char>,
    res: Dispatch,
)
    requires
        app.requests().contains_key(request_id),
        app.response_outcome(
            after,
            error_response_frame(service_id, method_id, request_id, error_code, text),
            res,
        ),
    ensures
        res matches Dispatch::CompleteRequest(id, Err(e)) && id == request_id && e.error_code
            == error_code && e.error_message@ == text,
{
    crate::application::message::lemma_error_message_roundtrip(error_code, text);
}

/// A request that found its method runs the handler on the request itself.
pub proof fn lemma_offered_method_invoked(
    app: ServiceApplication,
    packet: ApplicationFrame,
    addr: IpAddr,
    res: Dispatch,
)
    requires
        app.methods().contains(packet.method_id),
        app.request_outcome(packet, addr, res),
    ensures
        res matches Dispatch::InvokeMethod(p) && p@ == packet,
{
}

/// No request left open after an expiry pass has a deadline before `now`,
/// and the unexpired ones keep their deadlines.
pub proof fn lemma_no_expired_request_left(requests: Map<u16, u64>, now: u64)
    ensures
        forall|id: u16| #[trigger]
            requests.remove_keys(expired_ids(requests, now)).contains_key(id) ==> !(now
                > requests[id]) && requests.remove_keys(expired_ids(requests, now))[id]
                == requests[id],
        forall|id: u16|
            requests.contains_key(id) && !(now > requests[id]) ==> #[trigger] requests.remove_keys(
                expired_ids(requests, now),
            ).contains_key(id),
{
}

/// A response answers the request it was built for: it carries that
/// request's service, method and request IDs, is of the response type, and
/// the result travels as payload or as an error payload.
pub proof fn lemma_response_echoes_request(
    service_id: u16,
    method_id: u16,
    request_id: u16,
    payload: Seq<u8>,
    error_code: u8,
    text: Seq<char>,
)
    ensures
        response_frame(service_id, method_id, request_id, ApplicationMessageReturnCode::Success, payload).service_id
            == service_id,
        response_frame(service_id, method_id, request_id, ApplicationMessageReturnCode::Success, payload).method_id
            == method_id,
        response_frame(service_id, method_id, request_id, ApplicationMessageReturnCode::Success, payload).request_id
            == request_id,
        response_frame(service_id, method_id, request_id, ApplicationMessageReturnCode::Success, payload).message_type
            == ApplicationMessageType::Response,
        response_frame(service_id, method_id, request_id, ApplicationMessageReturnCode::Success, payload).payload
            == payload,
        error_response_frame(service_id, method_id, request_id, error_code, text).service_id == service_id,
        error_response_frame(service_id, method_id, request_id, error_code, text).method_id == method_id,
        error_response_frame(service_id, method_id, request_id, error_code, text).request_id == request_id,
        error_response_frame(service_id, method_id, request_id, error_code, text).return_code
            == ApplicationMessageReturnCode::Error,
        error_response_frame(service_id, method_id, request_id, error_code, text).payload[0] == error_code,
{
}

} // verus!
