//! The three-byte announcement packets of service discovery.

use vstd::prelude::*;

use crate::codec::{be16, from_be16, lemma_u16_halves, read_be_u16, DecodeError};

verus! {

/// Type byte of an announcement that a service is offered.
pub const OFFER_SERVICE_TYPE: u8 = 0x01;

/// Type byte of an announcement that a service is withdrawn.
pub const STOP_OFFER_SERVICE_TYPE: u8 = 0x02;

/// An announcement sent to the discovery multicast group.
#[derive(Debug, Clone, Copy, PartialEq, Eq, Structural)]
pub enum ServiceDiscoveryMessage {
    /// The sender offers the service with this ID.
    OfferService(u16),
    /// The sender no longer offers the service with this ID.
    StopOfferService(u16),
}

impl ServiceDiscoveryMessage {
    /// The wire form: the type byte, then the service ID big-endian.
    pub open spec fn spec_to_bytes(self) -> Seq<u8> {
        match self {
            ServiceDiscoveryMessage::OfferService(id) => seq![OFFER_SERVICE_TYPE] + be16(id),
            ServiceDiscoveryMessage::StopOfferService(id) => seq![STOP_OFFER_SERVICE_TYPE] + be16(id),
        }
    }

    /// What a received datagram decodes to. Bytes past the third are ignored.
    pub open spec fn spec_from_bytes(bytes: Seq<u8>) -> Result<Self, DecodeError> {
        if bytes.len() < 3 {
            Err(DecodeError::UnexpectedEnd)
        } else {
            let id = from_be16(bytes.subrange(1, 3));
            if bytes[0] == OFFER_SERVICE_TYPE {
                Ok(ServiceDiscoveryMessage::OfferService(id))
            } else if bytes[0] == STOP_OFFER_SERVICE_TYPE {
                Ok(ServiceDiscoveryMessage::StopOfferService(id))
            } else {
                Err(DecodeError::UnknownMessageType(bytes[0]))
            }
        }
    }

    /// The service ID the announcement is about.
    pub open spec fn spec_service_id(self) -> u16 {
        match self {
            ServiceDiscoveryMessage::OfferService(id) => id,
            ServiceDiscoveryMessage::StopOfferService(id) => id,
        }
    }

    /// Decodes a received datagram.
    pub fn from_bytes(bytes: &[u8]) -> (res: Result<Self, DecodeError>)
        ensures
            res == Self::spec_from_bytes(bytes@),
    {
        if bytes.len() < 3 {
            return Err(DecodeError::UnexpectedEnd);
        }
        let message_type = bytes[0];
        let service_id = read_be_u16(bytes, 1);
        if message_type == OFFER_SERVICE_TYPE {
            Ok(ServiceDiscoveryMessage::OfferService(service_id))
        } else if message_type == STOP_OFFER_SERVICE_TYPE {
            Ok(ServiceDiscoveryMessage::StopOfferService(service_id))
        } else {
            Err(DecodeError::UnknownMessageType(message_type))
        }
    }

    /// Encodes the announcement into a fixed three-byte array.
    pub fn to_bytes_array(&self) -> (bytes: [u8; 3])
        ensures
            bytes@ == self.spec_to_bytes(),
    {
        let (kind, id) = match self {
            ServiceDiscoveryMessage::OfferService(id) => (OFFER_SERVICE_TYPE, *id),
            ServiceDiscoveryMessage::StopOfferService(id) => (STOP_OFFER_SERVICE_TYPE, *id),
        };
        proof {
            lemma_u16_halves(id);
        }
        let bytes = [kind, (id >> 8) as u8, id as u8];
        assert(bytes@ =~= self.spec_to_bytes());
        bytes
    }
}

/// Decoding an encoded announcement gives it back.
pub proof fn lemma_sd_message_roundtrip(m: ServiceDiscoveryMessage)
    ensures
        ServiceDiscoveryMessage::spec_from_bytes(m.spec_to_bytes()) == Ok::<
            ServiceDiscoveryMessage,
            DecodeError,
        >(m),
{
    let b = m.spec_to_bytes();
    assert(b.subrange(1, 3) =~= be16(m.spec_service_id()));
}

/// A datagram that decodes is, in its first three bytes, the encoding of what
/// it decodes to.
pub proof fn lemma_sd_message_decode_encode(bytes: Seq<u8>)
    requires
        ServiceDiscoveryMessage::spec_from_bytes(bytes) is Ok,
    ensures
        ServiceDiscoveryMessage::spec_from_bytes(bytes)->Ok_0.spec_to_bytes() =~= bytes.take(3),
{
    crate::codec::lemma_be16_of_bytes(bytes.subrange(1, 3));
}

} // verus!
