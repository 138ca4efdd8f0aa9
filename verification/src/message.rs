//! Packets for discovery by service name, and a framed request message
//! carrying a client ID and a protocol version.

use vstd::prelude::*;

use crate::codec::{
    be16, be32, from_be16, from_be32, lemma_be16_roundtrip, lemma_be32_roundtrip,
    lemma_text_of_encoding, push_all, push_be_u16, push_be_u32, read_be_u16, read_be_u32,
    decode_utf8_lossy, text_of_bytes, DecodeError,
};
use crate::constants::{SD_REQUEST_PREFIX, SD_RESPONSE_PREFIX};

verus! {

/// A discovery request or response naming a service.
#[derive(Debug, Clone)]
pub enum DiscoveryMessage {
    /// Asks who offers the named service.
    Request(String),
    /// Answers that the sender offers the named service.
    Response(String),
}

/// The abstract content of a [`DiscoveryMessage`].
pub enum NamedDiscovery {
    Request(Seq<char>),
    Response(Seq<char>),
}

impl View for DiscoveryMessage {
    type V = NamedDiscovery;

    open spec fn view(&self) -> NamedDiscovery {
        match self {
            DiscoveryMessage::Request(name) => NamedDiscovery::Request(name@),
            DiscoveryMessage::Response(name) => NamedDiscovery::Response(name@),
        }
    }
}

/// The wire form of a named discovery message: the prefix big-endian, then
/// the name in UTF-8.
pub open spec fn spec_named_discovery_to_bytes(m: NamedDiscovery) -> Seq<u8> {
    match m {
        NamedDiscovery::Request(name) => be16(SD_REQUEST_PREFIX) + vstd::utf8::encode_utf8(name),
        NamedDiscovery::Response(name) => be16(SD_RESPONSE_PREFIX) + vstd::utf8::encode_utf8(name),
    }
}

/// What a datagram decodes to: the prefix picks the variant and the rest of
/// the bytes, decoded as text, is the name.
pub open spec fn spec_named_discovery_from_bytes(bytes: Seq<u8>) -> Option<NamedDiscovery> {
    if bytes.len() < 2 {
        None
    } else {
        let prefix = from_be16(bytes);
        let name = text_of_bytes(bytes.skip(2));
        if prefix == SD_REQUEST_PREFIX {
            Some(NamedDiscovery::Request(name))
        } else if prefix == SD_RESPONSE_PREFIX {
            Some(NamedDiscovery::Response(name))
        } else {
            None
        }
    }
}

impl DiscoveryMessage {
    /// Encodes the message.
    pub fn to_bytes(&self) -> (bytes: Vec<u8>)
        ensures
            bytes@ == spec_named_discovery_to_bytes(self@),
    {
        let mut bytes: Vec<u8> = Vec::new();
        match self {
            DiscoveryMessage::Request(name) => {
                push_be_u16(&mut bytes, SD_REQUEST_PREFIX);
                push_all(&mut bytes, name.as_str().as_bytes());
            },
            DiscoveryMessage::Response(name) => {
                push_be_u16(&mut bytes, SD_RESPONSE_PREFIX);
                push_all(&mut bytes, name.as_str().as_bytes());
            },
        }
        bytes
    }

    /// Decodes a datagram; `None` when it is shorter than a prefix or the
    /// prefix is neither a request's nor a response's.
    pub fn from_bytes(bytes: &[u8]) -> (res: Option<Self>)
        ensures
            match res {
                None => spec_named_discovery_from_bytes(bytes@) is None,
                Some(m) => spec_named_discovery_from_bytes(bytes@) == Some(m@),
            },
    {
        if bytes.len() < 2 {
            return None;
        }
        let prefix = read_be_u16(bytes, 0);
        assert(bytes@.subrange(0, 2)[0] == bytes@[0] && bytes@.subrange(0, 2)[1] == bytes@[1]);
        let content = &bytes[2..bytes.len()];
        assert(content@ =~= bytes@.skip(2));
        let name = decode_utf8_lossy(content);
        if prefix == SD_REQUEST_PREFIX {
            Some(DiscoveryMessage::Request(name))
        } else if prefix == SD_RESPONSE_PREFIX {
            Some(DiscoveryMessage::Response(name))
        } else {
            None
        }
    }
}

/// Decoding an encoded named discovery message gives it back.
pub proof fn lemma_named_discovery_roundtrip(m: NamedDiscovery)
    ensures
        spec_named_discovery_from_bytes(spec_named_discovery_to_bytes(m)) == Some(m),
{
    lemma_be16_roundtrip(SD_REQUEST_PREFIX);
    lemma_be16_roundtrip(SD_RESPONSE_PREFIX);
    let b = spec_named_discovery_to_bytes(m);
    match m {
        NamedDiscovery::Request(name) => {
            assert(b.skip(2) =~= vstd::utf8::encode_utf8(name));
            lemma_text_of_encoding(name);
        },
        NamedDiscovery::Response(name) => {
            assert(b.skip(2) =~= vstd::utf8::encode_utf8(name));
            lemma_text_of_encoding(name);
        },
    }
}

/// Size of the header that precedes the payload of a [`ProtocolMessage`].
pub const PROTOCOL_HEADER_LEN: usize = 15;

/// A framed request carrying a client ID and a protocol version.
#[derive(Debug, Clone, PartialEq)]
pub struct ProtocolMessage {
    pub service_id: u16,
    pub method_id: u16,
    pub client_id: u16,
    pub protocol_version: u8,
    /// Header plus payload length, as announced by the sender.
    pub length: u32,
    pub payload: Vec<u8>,
}

/// The abstract content of a [`ProtocolMessage`].
pub struct ProtocolFrame {
    pub service_id: u16,
    pub method_id: u16,
    pub client_id: u16,
    pub protocol_version: u8,
    pub length: u32,
    pub payload: Seq<u8>,
}

impl View for ProtocolMessage {
    type V = ProtocolFrame;

    open spec fn view(&self) -> ProtocolFrame {
        ProtocolFrame {
            service_id: self.service_id,
            method_id: self.method_id,
            client_id: self.client_id,
            protocol_version: self.protocol_version,
            length: self.length,
            payload: self.payload@,
        }
    }
}

/// The wire form: service ID, method ID, length, client ID (big-endian),
/// the version byte, the payload's length (big-endian), then the payload.
pub open spec fn spec_protocol_to_bytes(m: ProtocolFrame) -> Seq<u8> {
    be16(m.service_id) + be16(m.method_id) + be32(m.length) + be16(m.client_id) + seq![
        m.protocol_version,
    ] + be32(m.payload.len() as u32) + m.payload
}

/// What a byte sequence decodes to; bytes past the announced payload are ignored.
pub open spec fn spec_protocol_from_bytes(bytes: Seq<u8>) -> Result<ProtocolFrame, DecodeError> {
    if bytes.len() < 15 {
        Err(DecodeError::UnexpectedEnd)
    } else {
        let payload_len = from_be32(bytes.subrange(11, 15));
        if bytes.len() < 15 + payload_len {
            Err(DecodeError::UnexpectedEnd)
        } else {
            Ok(
                ProtocolFrame {
                    service_id: from_be16(bytes.subrange(0, 2)),
                    method_id: from_be16(bytes.subrange(2, 4)),
                    length: from_be32(bytes.subrange(4, 8)),
                    client_id: from_be16(bytes.subrange(8, 10)),
                    protocol_version: bytes[10],
                    payload: bytes.subrange(15, 15 + payload_len),
                },
            )
        }
    }
}

impl ProtocolMessage {
    /// A message whose length field is the header size plus the payload size.
    pub fn new(
        service_id: u16,
        method_id: u16,
        client_id: u16,
        protocol_version: u8,
        payload: Vec<u8>,
    ) -> (m: Self)
        requires
            payload@.len() + 15 <= u32::MAX,
        ensures
            m@ == (ProtocolFrame {
                service_id,
                method_id,
                client_id,
                protocol_version,
                length: (15 + payload@.len()) as u32,
                payload: payload@,
            }),
    {
        let length = 15 + payload.len() as u32;
        ProtocolMessage { service_id, method_id, length, client_id, protocol_version, payload }
    }

    /// Encodes the message. Writing into memory cannot fail, so the result is
    /// always `Ok`.
    pub fn to_bytes(&self) -> (res: Result<Vec<u8>, DecodeError>)
        requires
            self.payload@.len() <= u32::MAX,
        ensures
            res matches Ok(bytes) && bytes@ == spec_protocol_to_bytes(self@),
    {
        let mut buffer: Vec<u8> = Vec::new();
        push_be_u16(&mut buffer, self.service_id);
        push_be_u16(&mut buffer, self.method_id);
        push_be_u32(&mut buffer, self.length);
        push_be_u16(&mut buffer, self.client_id);
        buffer.push(self.protocol_version);
        push_be_u32(&mut buffer, self.payload.len() as u32);
        push_all(&mut buffer, self.payload.as_slice());
        assert(buffer@ =~= spec_protocol_to_bytes(self@));
        Ok(buffer)
    }

    /// Decodes a message from the start of `bytes`.
    pub fn from_bytes(bytes: &[u8]) -> (res: Result<Self, DecodeError>)
        ensures
            match res {
                Ok(m) => spec_protocol_from_bytes(bytes@) == Ok::<ProtocolFrame, DecodeError>(m@),
                Err(e) => spec_protocol_from_bytes(bytes@) == Err::<ProtocolFrame, DecodeError>(e),
            },
    {
        if bytes.len() < PROTOCOL_HEADER_LEN {
            return Err(DecodeError::UnexpectedEnd);
        }
        let service_id = read_be_u16(bytes, 0);
        let method_id = read_be_u16(bytes, 2);
        let length = read_be_u32(bytes, 4);
        let client_id = read_be_u16(bytes, 8);
        let protocol_version = bytes[10];
        let payload_length = read_be_u32(bytes, 11);
        if ((bytes.len() - PROTOCOL_HEADER_LEN) as u64) < (payload_length as u64) {
            return Err(DecodeError::UnexpectedEnd);
        }
        let end = PROTOCOL_HEADER_LEN + payload_length as usize;
        let payload = vstd::slice::slice_to_vec(&bytes[PROTOCOL_HEADER_LEN..end]);
        Ok(ProtocolMessage { service_id, method_id, length, client_id, protocol_version, payload })
    }
}

/// Decoding an encoded frame gives it back.
pub proof fn lemma_protocol_roundtrip(m: ProtocolFrame)
    requires
        m.payload.len() <= u32::MAX,
    ensures
        spec_protocol_from_bytes(spec_protocol_to_bytes(m)) == Ok::<ProtocolFrame, DecodeError>(m),
{
    let b = spec_protocol_to_bytes(m);
    lemma_be16_roundtrip(m.service_id);
    lemma_be16_roundtrip(m.method_id);
    lemma_be16_roundtrip(m.client_id);
    lemma_be32_roundtrip(m.length);
    lemma_be32_roundtrip(m.payload.len() as u32);
    assert(b.subrange(0, 2) =~= be16(m.service_id));
    assert(b.subrange(2, 4) =~= be16(m.method_id));
    assert(b.subrange(4, 8) =~= be32(m.length));
    assert(b.subrange(8, 10) =~= be16(m.client_id));
    assert(b.subrange(11, 15) =~= be32(m.payload.len() as u32));
    assert(b.subrange(15, 15 + m.payload.len() as int) =~= m.payload);
    let d = spec_protocol_from_bytes(b)->Ok_0;
    assert(d.payload =~= m.payload);
}

} // verus!
