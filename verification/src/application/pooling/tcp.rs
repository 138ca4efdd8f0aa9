//! The decisions of the TCP transport's connection handlers: how received
//! bytes are framed into messages, when an outgoing message is too large,
//! when a new client is turned away and how long an idle connection waits.
//!
//! Sockets, threads and channels belong to the caller.

use crossbeam::channel::Sender;
use vstd::prelude::*;

use crate::addr::IpAddr;
use crate::application::constants::{
    INACTIVE_READ_THRESHOLD, INACTIVE_SLEEP_MULTIPLIER, MAX_BUFFER_GROWTH, MAX_CLIENTS_FIXED,
    MAX_PACKET_BUFFER_SIZE, POLL_INTERVAL_MS,
};
use crate::application::message::ApplicationMessage;
use crate::application::pooling::client_registry::{
    occupied_below, slot_for, ClientRegistryError, FixedClientRegistry,
};
use crate::application::serializable::Serializable;

verus! {

/// What the transport can carry: an encodable value that can be copied,
/// shared between threads and printed.
pub trait ProtocolMessage: Serializable + Clone + Send + Sync + std::fmt::Debug + 'static {}

impl<T> ProtocolMessage for T where T: Serializable + Clone + Send + Sync + std::fmt::Debug + 'static {}

/// Why the transport refused a client or a message.
#[derive(Debug, Clone, Copy, PartialEq, Eq, Structural)]
pub enum TcpPoolError {
    /// As many clients as allowed are connected.
    MaxClientsReached,
    /// Every slot of the client table is taken.
    NoAvailableSlots,
    /// The encoded message exceeds the largest packet that is sent.
    MessageTooLarge,
}

/// Settings of the TCP transport.
#[derive(Debug, Clone, Copy)]
pub struct TcpPoolConfig {
    pub bind_addr: IpAddr,
    pub port: u16,
    pub max_clients: usize,
}

impl TcpPoolConfig {
    /// Settings with the client limit capped at the size of the client table.
    pub fn new(bind_addr: IpAddr, port: u16, max_clients: usize) -> (c: Self)
        ensures
            c.bind_addr == bind_addr,
            c.port == port,
            c.max_clients == if max_clients < MAX_CLIENTS_FIXED {
                max_clients
            } else {
                MAX_CLIENTS_FIXED
            },
    {
        let max_clients = if max_clients < MAX_CLIENTS_FIXED {
            max_clients
        } else {
            MAX_CLIENTS_FIXED
        };
        Self { bind_addr, port, max_clients }
    }
}

/// What became of received bytes.
pub enum ProcessingState<T> {
    /// A complete message was decoded; the pending bytes were dropped.
    MessageProcessed(T),
    /// The pending bytes do not hold a complete message yet.
    IncompleteMessage,
    /// The bytes would overflow the buffer, which was emptied.
    BufferReset,
}

/// The bytes of one connection that await the rest of their message.
pub struct ReceiveBuffer {
    pending: Vec<u8>,
}

impl View for ReceiveBuffer {
    type V = Seq<u8>;

    closed spec fn view(&self) -> Seq<u8> {
        self.pending@
    }
}

impl ReceiveBuffer {
    /// The buffer never holds more than [`MAX_BUFFER_GROWTH`] bytes.
    pub closed spec fn wf(&self) -> bool {
        self.pending@.len() <= MAX_BUFFER_GROWTH
    }

    /// An empty buffer.
    pub fn new() -> (b: Self)
        ensures
            b.wf(),
            b@ == Seq::<u8>::empty(),
    {
        ReceiveBuffer { pending: Vec::new() }
    }

    /// The number of pending bytes.
    pub fn len(&self) -> (n: usize)
        ensures
            n == self@.len(),
    {
        self.pending.len()
    }

    /// Drops the pending bytes.
    pub fn clear(&mut self)
        ensures
            final(self).wf(),
            final(self)@ == Seq::<u8>::empty(),
    {
        self.pending = Vec::new();
    }

    /// Appends received bytes and tries to decode a message from the start
    /// of the pending bytes. Bytes that would overflow the buffer empty it;
    /// a decoded message empties it too.
    pub fn try_process_data<T: Serializable>(&mut self, data: &[u8]) -> (state: ProcessingState<T>)
        requires
            old(self).wf(),
        ensures
            final(self).wf(),
            old(self)@.len() + data@.len() > MAX_BUFFER_GROWTH ==> state is BufferReset
                && final(self)@ == Seq::<u8>::empty(),
            old(self)@.len() + data@.len() <= MAX_BUFFER_GROWTH ==> if T::decodable(
                old(self)@ + data@,
            ) {
                &&& (state matches ProcessingState::MessageProcessed(v) && T::decodes_to(
                    old(self)@ + data@,
                    v,
                ))
                &&& final(self)@ == Seq::<u8>::empty()
            } else {
                &&& state is IncompleteMessage
                &&& final(self)@ == old(self)@ + data@
            },
    {
        if data.len() > MAX_BUFFER_GROWTH - self.pending.len() {
            self.pending = Vec::new();
            return ProcessingState::BufferReset;
        }
        let ghost before = self.pending@;
        let mut i: usize = 0;
        while i < data.len()
            invariant
                i <= data@.len(),
                before.len() + data@.len() <= MAX_BUFFER_GROWTH,
                self.pending@ == before + data@.take(i as int),
            decreases data@.len() - i,
        {
            self.pending.push(data[i]);
            proof {
                assert(data@.take(i + 1) =~= data@.take(i as int).push(data@[i as int]));
            }
            i = i + 1;
        }
        proof {
            assert(data@.take(data@.len() as int) =~= data@);
        }
        match T::from_bytes(self.pending.as_slice()) {
            Ok(packet) => {
                self.pending = Vec::new();
                ProcessingState::MessageProcessed(packet)
            },
            Err(_) => ProcessingState::IncompleteMessage,
        }
    }
}

/// The bytes to send for an outgoing message, refused when they exceed the
/// largest packet that is sent.
pub fn outgoing_frame<T: Serializable>(msg: &T) -> (res: Result<Vec<u8>, TcpPoolError>)
    requires
        msg.encodable(),
    ensures
        msg.encoding().len() > MAX_PACKET_BUFFER_SIZE ==> res == Err::<Vec<u8>, TcpPoolError>(
            TcpPoolError::MessageTooLarge,
        ),
        msg.encoding().len() <= MAX_PACKET_BUFFER_SIZE ==> (res matches Ok(bytes) && bytes@
            == msg.encoding()),
{
    let serialized = msg.to_bytes();
    if serialized.len() > MAX_PACKET_BUFFER_SIZE {
        return Err(TcpPoolError::MessageTooLarge);
    }
    Ok(serialized)
}

/// What a poll read from a connection.
#[derive(Debug, Clone, Copy, PartialEq, Eq, Structural)]
pub enum ReadOutcome {
    /// The peer closed the connection: the read gave zero bytes.
    Closed,
    /// This many bytes arrived.
    Received(usize),
    /// Nothing was there to read yet.
    WouldBlock,
    /// The read failed.
    Failed,
}

/// What the connection handler does after a read.
#[derive(Debug, Clone, Copy, PartialEq, Eq, Structural)]
pub enum ReadAction {
    /// Unregister the client and stop handling the connection.
    Disconnect,
    /// Hand the bytes received to the receive buffer.
    Process,
    /// Go on with the outgoing messages.
    Continue,
    /// Stop handling the connection; the client stays registered.
    Stop,
}

/// The decision after one read, with the handler's new activity counters.
#[derive(Debug, Clone, Copy, PartialEq, Eq, Structural)]
pub struct ReadStep {
    pub action: ReadAction,
    /// Whether the poll saw data.
    pub had_activity: bool,
    /// Reads in a row that found nothing, capped at 255.
    pub consecutive_empty_reads: u8,
}

/// What follows a read: a closed connection is dropped from the client
/// table, received bytes are processed and reset the count of empty reads,
/// an empty read adds one to it (up to 255), and a failed read ends the
/// handler.
pub fn read_step(outcome: ReadOutcome, consecutive_empty_reads: u8) -> (step: ReadStep)
    ensures
        match outcome {
            ReadOutcome::Closed => step == (ReadStep {
                action: ReadAction::Disconnect,
                had_activity: false,
                consecutive_empty_reads,
            }),
            ReadOutcome::Received(_) => step == (ReadStep {
                action: ReadAction::Process,
                had_activity: true,
                consecutive_empty_reads: 0,
            }),
            ReadOutcome::WouldBlock => step == (ReadStep {
                action: ReadAction::Continue,
                had_activity: false,
                consecutive_empty_reads: if consecutive_empty_reads < 255 {
                    (consecutive_empty_reads + 1) as u8
                } else {
                    255
                },
            }),
            ReadOutcome::Failed => step == (ReadStep {
                action: ReadAction::Stop,
                had_activity: false,
                consecutive_empty_reads,
            }),
        },
{
    match outcome {
        ReadOutcome::Closed => ReadStep { action: ReadAction::Disconnect, had_activity: false, consecutive_empty_reads },
        ReadOutcome::Received(_) => ReadStep { action: ReadAction::Process, had_activity: true, consecutive_empty_reads: 0 },
        ReadOutcome::WouldBlock => ReadStep {
            action: ReadAction::Continue,
            had_activity: false,
            consecutive_empty_reads: if consecutive_empty_reads < 255 {
                consecutive_empty_reads + 1
            } else {
                255
            },
        },
        ReadOutcome::Failed => ReadStep { action: ReadAction::Stop, had_activity: false, consecutive_empty_reads },
    }
}

/// The pause before the next poll of a connection, in milliseconds: longer
/// once the connection has been idle for a while.
pub fn poll_delay(had_activity: bool, consecutive_empty_reads: u8) -> (ms: u64)
    ensures
        ms == if had_activity || consecutive_empty_reads < INACTIVE_READ_THRESHOLD {
            POLL_INTERVAL_MS as int
        } else {
            POLL_INTERVAL_MS * INACTIVE_SLEEP_MULTIPLIER
        },
{
    if had_activity || consecutive_empty_reads < INACTIVE_READ_THRESHOLD {
        POLL_INTERVAL_MS
    } else {
        POLL_INTERVAL_MS * INACTIVE_SLEEP_MULTIPLIER
    }
}

/// Adds a connected client to the table, unless `max_clients` clients are
/// connected already or no slot can take it.
pub fn register_client(
    registry: &mut FixedClientRegistry,
    max_clients: usize,
    ip: IpAddr,
    sender: Sender<ApplicationMessage>,
) -> (res: Result<(), TcpPoolError>)
    requires
        old(registry).wf(),
    ensures
        final(registry).wf(),
        occupied_below(old(registry).slots(), MAX_CLIENTS_FIXED as int) >= max_clients ==> res
            == Err::<(), TcpPoolError>(TcpPoolError::MaxClientsReached) && final(registry).slots()
            == old(registry).slots(),
        occupied_below(old(registry).slots(), MAX_CLIENTS_FIXED as int) < max_clients ==> match slot_for(
            old(registry).slots(),
            ip,
        ) {
            Some(i) => res is Ok && final(registry).slots() == old(registry).slots().update(
                i,
                Some((ip, sender)),
            ),
            None => res == Err::<(), TcpPoolError>(TcpPoolError::NoAvailableSlots)
                && final(registry).slots() == old(registry).slots(),
        },
{
    if registry.len() >= max_clients {
        return Err(TcpPoolError::MaxClientsReached);
    }
    match registry.add_client(ip, sender) {
        Ok(()) => Ok(()),
        Err(ClientRegistryError::NoAvailableSlots) => Err(TcpPoolError::NoAvailableSlots),
    }
}

/// The bytes of a whole message, received into an empty buffer that has
/// room for them, are decoded as that message.
pub proof fn lemma_whole_message_framed<T: Serializable>(m: T)
    requires
        m.encodable(),
    ensures
        T::decodable(Seq::<u8>::empty() + m.encoding()),
        T::decodes_to(Seq::<u8>::empty() + m.encoding(), m),
{
    m.lemma_roundtrip();
    assert(Seq::<u8>::empty() + m.encoding() =~= m.encoding());
}

/// An application packet framed from its own bytes is the packet sent,
/// field for field.
pub proof fn lemma_application_packet_framed(m: ApplicationMessage, received: ApplicationMessage)
    requires
        m.encodable(),
        ApplicationMessage::decodes_to(Seq::<u8>::empty() + m.encoding(), received),
    ensures
        received@ == m@,
{
    lemma_whole_message_framed(m);
}

/// Two packets arriving in one read: the first is framed whole and decoded
/// as sent, however much of the second follows it.
pub proof fn lemma_coalesced_packets_framed(
    first: ApplicationMessage,
    second: ApplicationMessage,
    k: int,
    received: ApplicationMessage,
)
    requires
        first.encodable(),
        0 <= k <= second.encoding().len(),
    ensures
        ApplicationMessage::decodable(Seq::<u8>::empty() + (first.encoding() + second.encoding().take(k))),
        ApplicationMessage::decodes_to(
            Seq::<u8>::empty() + (first.encoding() + second.encoding().take(k)),
            received,
        ) ==> received@ == first@,
{
    let bytes = first.encoding() + second.encoding().take(k);
    assert(Seq::<u8>::empty() + bytes =~= bytes);
    crate::application::message::lemma_packet_framed_before_trailing_bytes(
        first,
        second.encoding().take(k),
        received,
    );
}

} // verus!
