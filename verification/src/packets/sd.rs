//! Discovery requests and responses that carry a 16-bit service ID.

use vstd::prelude::*;

use crate::codec::{be16, from_be16, lemma_be16_roundtrip, push_be_u16, read_be_u16};
use crate::constants::{SD_REQUEST_PREFIX, SD_RESPONSE_PREFIX};

verus! {

/// A discovery request or response for the service with the given ID.
#[derive(Debug, Clone, Copy, PartialEq, Eq, Structural)]
pub enum DiscoveryMessage {
    /// Asks who offers the service.
    Request(u16),
    /// Answers that the sender offers the service.
    Response(u16),
}

impl DiscoveryMessage {
    /// The wire form: the prefix of the variant, then the service ID, both big-endian.
    pub open spec fn spec_to_bytes(self) -> Seq<u8> {
        match self {
            DiscoveryMessage::Request(id) => be16(SD_REQUEST_PREFIX) + be16(id),
            DiscoveryMessage::Response(id) => be16(SD_RESPONSE_PREFIX) + be16(id),
        }
    }

    /// What a datagram decodes to: nothing when it is shorter than the four
    /// bytes of a message; bytes past the fourth are ignored.
    pub open spec fn spec_from_bytes(bytes: Seq<u8>) -> Option<Self> {
        if bytes.len() < 4 {
            None
        } else {
            let prefix = from_be16(bytes);
            let id = from_be16(bytes.subrange(2, 4));
            if prefix == SD_REQUEST_PREFIX {
                Some(DiscoveryMessage::Request(id))
            } else if prefix == SD_RESPONSE_PREFIX {
                Some(DiscoveryMessage::Response(id))
            } else {
                None
            }
        }
    }

    /// Encodes the message.
    pub fn to_bytes(&self) -> (bytes: Vec<u8>)
        ensures
            bytes@ == self.spec_to_bytes(),
    {
        let mut bytes: Vec<u8> = Vec::new();
        match self {
            DiscoveryMessage::Request(id) => {
                push_be_u16(&mut bytes, SD_REQUEST_PREFIX);
                push_be_u16(&mut bytes, *id);
            },
            DiscoveryMessage::Response(id) => {
                push_be_u16(&mut bytes, SD_RESPONSE_PREFIX);
                push_be_u16(&mut bytes, *id);
            },
        }
        assert(bytes@ =~= self.spec_to_bytes());
        bytes
    }

    /// Decodes a datagram; one shorter than four bytes decodes to nothing.
    pub fn from_bytes(bytes: &[u8]) -> (res: Option<Self>)
        ensures
            res == Self::spec_from_bytes(bytes@),
    {
        if bytes.len() < 4 {
            return None;
        }
        let prefix = read_be_u16(bytes, 0);
        let id = read_be_u16(bytes, 2);
        assert(bytes@.subrange(0, 2)[0] == bytes@[0] && bytes@.subrange(0, 2)[1] == bytes@[1]);
        if prefix == SD_REQUEST_PREFIX {
            Some(DiscoveryMessage::Request(id))
        } else if prefix == SD_RESPONSE_PREFIX {
            Some(DiscoveryMessage::Response(id))
        } else {
            None
        }
    }
}

/// Decoding an encoded discovery message gives it back.
pub proof fn lemma_discovery_id_roundtrip(m: DiscoveryMessage)
    ensures
        m.spec_to_bytes().len() == 4,
        DiscoveryMessage::spec_from_bytes(m.spec_to_bytes()) == Some(m),
{
    let b = m.spec_to_bytes();
    let id = match m {
        DiscoveryMessage::Request(id) => id,
        DiscoveryMessage::Response(id) => id,
    };
    lemma_be16_roundtrip(id);
    lemma_be16_roundtrip(SD_REQUEST_PREFIX);
    lemma_be16_roundtrip(SD_RESPONSE_PREFIX);
    assert(b.subrange(2, 4) =~= be16(id));
}

} // verus!
