//! Packets of the application protocol: requests, responses, notifications
//! and (un)subscriptions, and the error payload carried by failed responses.

use rand::Rng;
use vstd::prelude::*;

use crate::application::serializable::Serializable;
use crate::codec::{
    be16, be32, from_be16, from_be32, lemma_be16_roundtrip, lemma_be32_roundtrip,
    lemma_text_of_encoding, push_all, push_be_u16, push_be_u32, read_be_u16, read_be_u32,
    decode_utf8_lossy, text_of_bytes, DecodeError,
};

verus! {

/// Largest packet the application protocol exchanges.
pub const MAX_PACKET_SIZE: usize = 1024;

/// Size of the header that precedes the payload of an [`ApplicationMessage`].
pub const APPLICATION_HEADER_LEN: usize = 16;

/// The size the length field counts besides the payload.
pub const LENGTH_FIELD_BASE: u32 = 12;

/// What an application packet asks for.
#[allow(non_camel_case_types)]
#[derive(Debug, Clone, Copy, PartialEq, Eq, Structural)]
pub enum ApplicationMessageType {
    Request,
    Notification,
    Subscribe,
    Unsubscribe,
    Response,
    INVALID,
}

impl ApplicationMessageType {
    /// The type byte on the wire.
    pub open spec fn spec_to_u8(self) -> u8 {
        match self {
            ApplicationMessageType::Request => 0x00,
            ApplicationMessageType::Subscribe => 0x01,
            ApplicationMessageType::Notification => 0x02,
            ApplicationMessageType::Unsubscribe => 0x03,
            ApplicationMessageType::Response => 0x04,
            ApplicationMessageType::INVALID => 0xFF,
        }
    }

    /// The type a wire byte stands for; unknown bytes give `INVALID`.
    pub open spec fn spec_from_u8(value: u8) -> Self {
        if value == 0x00 {
            ApplicationMessageType::Request
        } else if value == 0x02 {
            ApplicationMessageType::Notification
        } else if value == 0x01 {
            ApplicationMessageType::Subscribe
        } else if value == 0x03 {
            ApplicationMessageType::Unsubscribe
        } else if value == 0x04 {
            ApplicationMessageType::Response
        } else {
            ApplicationMessageType::INVALID
        }
    }

    /// The type byte on the wire.
    pub fn to_u8(&self) -> (b: u8)
        ensures
            b == self.spec_to_u8(),
            b == match *self {
                ApplicationMessageType::Request => 0x00u8,
                ApplicationMessageType::Subscribe => 0x01u8,
                ApplicationMessageType::Notification => 0x02u8,
                ApplicationMessageType::Unsubscribe => 0x03u8,
                ApplicationMessageType::Response => 0x04u8,
                ApplicationMessageType::INVALID => 0xFFu8,
            },
    {
        match self {
            ApplicationMessageType::Request => 0x00,
            ApplicationMessageType::Subscribe => 0x01,
            ApplicationMessageType::Notification => 0x02,
            ApplicationMessageType::Unsubscribe => 0x03,
            ApplicationMessageType::Response => 0x04,
            ApplicationMessageType::INVALID => 0xFF,
        }
    }
}

impl From<u8> for ApplicationMessageType {
    fn from(value: u8) -> (t: Self) {
        match value {
            0x00 => ApplicationMessageType::Request,
            0x02 => ApplicationMessageType::Notification,
            0x01 => ApplicationMessageType::Subscribe,
            0x03 => ApplicationMessageType::Unsubscribe,
            0x04 => ApplicationMessageType::Response,
            _ => ApplicationMessageType::INVALID,
        }
    }
}

impl vstd::std_specs::convert::FromSpecImpl<u8> for ApplicationMessageType {
    open spec fn obeys_from_spec() -> bool {
        true
    }

    open spec fn from_spec(value: u8) -> Self {
        ApplicationMessageType::spec_from_u8(value)
    }
}

/// Whether a response reports success.
#[allow(non_camel_case_types)]
#[derive(Debug, Clone, Copy, PartialEq, Eq, Structural)]
pub enum ApplicationMessageReturnCode {
    Success,
    Error,
    INVALID,
}

impl ApplicationMessageReturnCode {
    /// The return-code byte on the wire.
    pub open spec fn spec_to_u8(self) -> u8 {
        match self {
            ApplicationMessageReturnCode::Success => 0x00,
            ApplicationMessageReturnCode::Error => 0x01,
            ApplicationMessageReturnCode::INVALID => 0xFF,
        }
    }

    /// The code a wire byte stands for; unknown bytes give `INVALID`.
    pub open spec fn spec_from_u8(value: u8) -> Self {
        if value == 0x00 {
            ApplicationMessageReturnCode::Success
        } else if value == 0x01 {
            ApplicationMessageReturnCode::Error
        } else {
            ApplicationMessageReturnCode::INVALID
        }
    }

    /// The return-code byte on the wire.
    pub fn to_u8(&self) -> (b: u8)
        ensures
            b == self.spec_to_u8(),
            b == match *self {
                ApplicationMessageReturnCode::Success => 0x00u8,
                ApplicationMessageReturnCode::Error => 0x01u8,
                ApplicationMessageReturnCode::INVALID => 0xFFu8,
            },
    {
        match self {
            ApplicationMessageReturnCode::Success => 0x00,
            ApplicationMessageReturnCode::Error => 0x01,
            ApplicationMessageReturnCode::INVALID => 0xFF,
        }
    }
}

impl From<u8> for ApplicationMessageReturnCode {
    fn from(value: u8) -> (c: Self) {
        match value {
            0x00 => ApplicationMessageReturnCode::Success,
            0x01 => ApplicationMessageReturnCode::Error,
            _ => ApplicationMessageReturnCode::INVALID,
        }
    }
}

impl vstd::std_specs::convert::FromSpecImpl<u8> for ApplicationMessageReturnCode {
    open spec fn obeys_from_spec() -> bool {
        true
    }

    open spec fn from_spec(value: u8) -> Self {
        ApplicationMessageReturnCode::spec_from_u8(value)
    }
}

/// The type byte of every type decodes back to that type.
pub proof fn lemma_message_type_roundtrip(t: ApplicationMessageType)
    ensures
        ApplicationMessageType::spec_from_u8(t.spec_to_u8()) == t,
{
}

/// Each message type has its fixed protocol byte, and a byte decodes to a
/// type exactly when it is that type's byte; every other byte is `INVALID`.
pub proof fn lemma_message_type_wire_values(b: u8)
    ensures
        ApplicationMessageType::Request.spec_to_u8() == 0x00,
        ApplicationMessageType::Subscribe.spec_to_u8() == 0x01,
        ApplicationMessageType::Notification.spec_to_u8() == 0x02,
        ApplicationMessageType::Unsubscribe.spec_to_u8() == 0x03,
        ApplicationMessageType::Response.spec_to_u8() == 0x04,
        ApplicationMessageType::INVALID.spec_to_u8() == 0xFF,
        (ApplicationMessageType::spec_from_u8(b) == ApplicationMessageType::Request) <==> b == 0x00,
        (ApplicationMessageType::spec_from_u8(b) == ApplicationMessageType::Subscribe) <==> b == 0x01,
        (ApplicationMessageType::spec_from_u8(b) == ApplicationMessageType::Notification) <==> b
            == 0x02,
        (ApplicationMessageType::spec_from_u8(b) == ApplicationMessageType::Unsubscribe) <==> b
            == 0x03,
        (ApplicationMessageType::spec_from_u8(b) == ApplicationMessageType::Response) <==> b == 0x04,
        (ApplicationMessageType::spec_from_u8(b) == ApplicationMessageType::INVALID) <==> b > 0x04,
{
}

/// Each return code has its fixed protocol byte, and a byte decodes to a
/// code exactly when it is that code's byte; every other byte is `INVALID`.
pub proof fn lemma_return_code_wire_values(b: u8)
    ensures
        ApplicationMessageReturnCode::Success.spec_to_u8() == 0x00,
        ApplicationMessageReturnCode::Error.spec_to_u8() == 0x01,
        ApplicationMessageReturnCode::INVALID.spec_to_u8() == 0xFF,
        (ApplicationMessageReturnCode::spec_from_u8(b) == ApplicationMessageReturnCode::Success) <==> b
            == 0x00,
        (ApplicationMessageReturnCode::spec_from_u8(b) == ApplicationMessageReturnCode::Error) <==> b
            == 0x01,
        (ApplicationMessageReturnCode::spec_from_u8(b) == ApplicationMessageReturnCode::INVALID) <==> b
            > 0x01,
{
}

/// The return-code byte of every code decodes back to that code.
pub proof fn lemma_return_code_roundtrip(c: ApplicationMessageReturnCode)
    ensures
        ApplicationMessageReturnCode::spec_from_u8(c.spec_to_u8()) == c,
{
}

/// The payload of a failed response: an error code and a message.
#[derive(Debug, Clone, PartialEq)]
pub struct ApplicationResponseErrorMessage {
    pub error_code: u8,
    pub error_message: String,
}

/// The wire form of an error payload: the code, then the message in UTF-8.
pub open spec fn spec_error_to_bytes(error_code: u8, error_message: Seq<char>) -> Seq<u8> {
    seq![error_code] + vstd::utf8::encode_utf8(error_message)
}

impl ApplicationResponseErrorMessage {
    /// An error payload with the given code and message.
    pub fn new(error_code: u8, error_message: String) -> (e: Self)
        ensures
            e.error_code == error_code,
            e.error_message@ == error_message@,
    {
        ApplicationResponseErrorMessage { error_code, error_message }
    }

    /// Encodes the error payload.
    pub fn to_bytes(&self) -> (bytes: Vec<u8>)
        ensures
            bytes@ == spec_error_to_bytes(self.error_code, self.error_message@),
    {
        let mut buffer: Vec<u8> = Vec::new();
        buffer.push(self.error_code);
        push_all(&mut buffer, self.error_message.as_str().as_bytes());
        assert(buffer@ =~= spec_error_to_bytes(self.error_code, self.error_message@));
        buffer
    }

    /// Decodes an error payload: the first byte is the code and the rest,
    /// decoded as text, the message. Empty input is an error.
    pub fn from_bytes(bytes: &[u8]) -> (res: Result<Self, DecodeError>)
        ensures
            bytes@.len() == 0 ==> res == Err::<Self, DecodeError>(DecodeError::EmptyInput),
            bytes@.len() > 0 ==> (res matches Ok(e) && e.error_code == bytes@[0]
                && e.error_message@ == text_of_bytes(bytes@.skip(1))),
    {
        if bytes.len() == 0 {
            return Err(DecodeError::EmptyInput);
        }
        let error_code = bytes[0];
        let rest = &bytes[1..bytes.len()];
        assert(rest@ =~= bytes@.skip(1));
        let error_message = decode_utf8_lossy(rest);
        Ok(ApplicationResponseErrorMessage { error_code, error_message })
    }
}

/// Decoding an encoded error payload gives back its code and message.
pub proof fn lemma_error_message_roundtrip(error_code: u8, error_message: Seq<char>)
    ensures
        spec_error_to_bytes(error_code, error_message).len() >= 1,
        spec_error_to_bytes(error_code, error_message)[0] == error_code,
        text_of_bytes(spec_error_to_bytes(error_code, error_message).skip(1)) == error_message,
{
    assert(spec_error_to_bytes(error_code, error_message).skip(1) =~= vstd::utf8::encode_utf8(
        error_message,
    ));
    lemma_text_of_encoding(error_message);
}

/// An application packet.
#[derive(Debug, Clone, PartialEq)]
pub struct ApplicationMessage {
    pub service_id: u16,
    pub method_id: u16,
    pub request_id: u16,
    pub message_type: ApplicationMessageType,
    pub return_code: ApplicationMessageReturnCode,
    /// Header fields counted by the protocol (twelve bytes) plus the payload.
    pub length: u32,
    pub payload: Vec<u8>,
}

/// The abstract content of an [`ApplicationMessage`].
pub struct ApplicationFrame {
    pub service_id: u16,
    pub method_id: u16,
    pub request_id: u16,
    pub message_type: ApplicationMessageType,
    pub return_code: ApplicationMessageReturnCode,
    pub length: u32,
    pub payload: Seq<u8>,
}

impl View for ApplicationMessage {
    type V = ApplicationFrame;

    open spec fn view(&self) -> ApplicationFrame {
        ApplicationFrame {
            service_id: self.service_id,
            method_id: self.method_id,
            request_id: self.request_id,
            message_type: self.message_type,
            return_code: self.return_code,
            length: self.length,
            payload: self.payload@,
        }
    }
}

/// The length field of a packet with `payload_len` payload bytes.
pub open spec fn spec_length_for(payload_len: nat) -> u32 {
    (LENGTH_FIELD_BASE + payload_len) as u32
}

/// The wire form: service ID, method ID, length, request ID (big-endian),
/// type byte, return-code byte, payload length (big-endian), payload.
pub open spec fn spec_application_to_bytes(m: ApplicationFrame) -> Seq<u8> {
    be16(m.service_id) + be16(m.method_id) + be32(m.length) + be16(m.request_id) + seq![
        m.message_type.spec_to_u8(),
        m.return_code.spec_to_u8(),
    ] + be32(m.payload.len() as u32) + m.payload
}

/// What a byte sequence decodes to; bytes past the announced payload are ignored.
pub open spec fn spec_application_from_bytes(bytes: Seq<u8>) -> Result<ApplicationFrame, DecodeError> {
    if bytes.len() < 16 {
        Err(DecodeError::UnexpectedEnd)
    } else {
        let payload_len = from_be32(bytes.subrange(12, 16));
        if bytes.len() < 16 + payload_len {
            Err(DecodeError::UnexpectedEnd)
        } else {
            Ok(
                ApplicationFrame {
                    service_id: from_be16(bytes.subrange(0, 2)),
                    method_id: from_be16(bytes.subrange(2, 4)),
                    length: from_be32(bytes.subrange(4, 8)),
                    request_id: from_be16(bytes.subrange(8, 10)),
                    message_type: ApplicationMessageType::spec_from_u8(bytes[10]),
                    return_code: ApplicationMessageReturnCode::spec_from_u8(bytes[11]),
                    payload: bytes.subrange(16, 16 + payload_len),
                },
            )
        }
    }
}

/// A random request ID, drawn by rand's thread-local generator
/// (`rand::rng().random_range(0..=u16::MAX)`). Any `u16` may come back.
#[verifier::external_body]
fn random_request_id() -> u16 {
    let mut rng = rand::rng();
    rng.random_range(0..=u16::MAX)
}

impl ApplicationMessage {
    /// A packet whose length field counts the header fields and the payload.
    /// Without a request ID, a random one is drawn.
    pub fn new(
        service_id: u16,
        method_id: u16,
        request_id: Option<u16>,
        message_type: ApplicationMessageType,
        return_code: ApplicationMessageReturnCode,
        payload: Vec<u8>,
    ) -> (m: Self)
        requires
            payload@.len() + LENGTH_FIELD_BASE <= u32::MAX,
        ensures
            m.service_id == service_id,
            m.method_id == method_id,
            request_id matches Some(id) ==> m.request_id == id,
            m.message_type == message_type,
            m.return_code == return_code,
            m.length == spec_length_for(payload@.len()),
            m.payload@ == payload@,
    {
        let length = LENGTH_FIELD_BASE + payload.len() as u32;
        let request_id = match request_id {
            Some(id) => id,
            None => ApplicationMessage::random_request_id(),
        };
        ApplicationMessage {
            service_id,
            method_id,
            message_type,
            return_code,
            request_id,
            length,
            payload,
        }
    }

    /// Replaces the payload and updates the length field to match.
    pub fn set_payload(&mut self, payload: Vec<u8>)
        requires
            payload@.len() + LENGTH_FIELD_BASE <= u32::MAX,
        ensures
            final(self)@ == (ApplicationFrame {
                length: spec_length_for(payload@.len()),
                payload: payload@,
                ..old(self)@
            }),
    {
        self.length = LENGTH_FIELD_BASE + payload.len() as u32;
        self.payload = payload;
    }

    /// Encodes the packet. Writing into memory cannot fail, so the result is
    /// always `Ok`.
    pub fn to_bytes(&self) -> (res: Result<Vec<u8>, DecodeError>)
        requires
            self.payload@.len() <= u32::MAX,
        ensures
            res matches Ok(bytes) && bytes@ == spec_application_to_bytes(self@),
    {
        let mut buffer: Vec<u8> = Vec::new();
        push_be_u16(&mut buffer, self.service_id);
        push_be_u16(&mut buffer, self.method_id);
        push_be_u32(&mut buffer, self.length);
        push_be_u16(&mut buffer, self.request_id);
        buffer.push(self.message_type.to_u8());
        buffer.push(self.return_code.to_u8());
        push_be_u32(&mut buffer, self.payload.len() as u32);
        push_all(&mut buffer, self.payload.as_slice());
        assert(buffer@ =~= spec_application_to_bytes(self@));
        Ok(buffer)
    }

    /// Decodes a packet from the start of `bytes`.
    pub fn from_bytes(bytes: &[u8]) -> (res: Result<Self, DecodeError>)
        ensures
            match res {
                Ok(m) => spec_application_from_bytes(bytes@) == Ok::<ApplicationFrame, DecodeError>(m@),
                Err(e) => spec_application_from_bytes(bytes@) == Err::<ApplicationFrame, DecodeError>(e),
            },
    {
        if bytes.len() < APPLICATION_HEADER_LEN {
            return Err(DecodeError::UnexpectedEnd);
        }
        let service_id = read_be_u16(bytes, 0);
        let method_id = read_be_u16(bytes, 2);
        let length = read_be_u32(bytes, 4);
        let request_id = read_be_u16(bytes, 8);
        let message_type = ApplicationMessageType::from(bytes[10]);
        let return_code = ApplicationMessageReturnCode::from(bytes[11]);
        let payload_length = read_be_u32(bytes, 12);
        if ((bytes.len() - APPLICATION_HEADER_LEN) as u64) < (payload_length as u64) {
            return Err(DecodeError::UnexpectedEnd);
        }
        let end = APPLICATION_HEADER_LEN + payload_length as usize;
        let payload = vstd::slice::slice_to_vec(&bytes[APPLICATION_HEADER_LEN..end]);
        Ok(
            ApplicationMessage {
                service_id,
                method_id,
                length,
                request_id,
                message_type,
                return_code,
                payload,
            },
        )
    }

    /// A random request ID (see [`random_request_id`]).
    pub fn random_request_id() -> u16 {
        random_request_id()
    }
}

/// Decoding an encoded packet gives it back, every field included.
pub proof fn lemma_application_roundtrip(m: ApplicationFrame)
    requires
        m.payload.len() <= u32::MAX,
    ensures
        spec_application_from_bytes(spec_application_to_bytes(m)) == Ok::<
            ApplicationFrame,
            DecodeError,
        >(m),
{
    let b = spec_application_to_bytes(m);
    lemma_be16_roundtrip(m.service_id);
    lemma_be16_roundtrip(m.method_id);
    lemma_be16_roundtrip(m.request_id);
    lemma_be32_roundtrip(m.length);
    lemma_be32_roundtrip(m.payload.len() as u32);
    lemma_message_type_roundtrip(m.message_type);
    lemma_return_code_roundtrip(m.return_code);
    assert(b.subrange(0, 2) =~= be16(m.service_id));
    assert(b.subrange(2, 4) =~= be16(m.method_id));
    assert(b.subrange(4, 8) =~= be32(m.length));
    assert(b.subrange(8, 10) =~= be16(m.request_id));
    assert(b.subrange(12, 16) =~= be32(m.payload.len() as u32));
    assert(b.subrange(16, 16 + m.payload.len() as int) =~= m.payload);
    let d = spec_application_from_bytes(b)->Ok_0;
    assert(d.payload =~= m.payload);
}

impl Serializable for ApplicationMessage {
    open spec fn encodable(&self) -> bool {
        self.payload@.len() <= u32::MAX
    }

    open spec fn encoding(&self) -> Seq<u8> {
        spec_application_to_bytes(self@)
    }

    open spec fn decodable(bytes: Seq<u8>) -> bool {
        spec_application_from_bytes(bytes) is Ok
    }

    open spec fn decodes_to(bytes: Seq<u8>, value: Self) -> bool {
        spec_application_from_bytes(bytes) == Ok::<ApplicationFrame, DecodeError>(value@)
    }

    fn to_bytes(&self) -> (bytes: Vec<u8>) {
        match ApplicationMessage::to_bytes(self) {
            Ok(bytes) => bytes,
            Err(_) => Vec::new(),
        }
    }

    fn from_bytes(bytes: &[u8]) -> (res: Result<Self, DecodeError>) {
        ApplicationMessage::from_bytes(bytes)
    }

    proof fn lemma_roundtrip(&self) {
        lemma_application_roundtrip(self@);
    }
}

/// In an encoded packet, byte 10 is the type's protocol byte and byte 11
/// the return code's.
pub proof fn lemma_type_and_code_bytes_on_wire(m: ApplicationFrame)
    ensures
        spec_application_to_bytes(m)[10] == match m.message_type {
            ApplicationMessageType::Request => 0x00u8,
            ApplicationMessageType::Subscribe => 0x01u8,
            ApplicationMessageType::Notification => 0x02u8,
            ApplicationMessageType::Unsubscribe => 0x03u8,
            ApplicationMessageType::Response => 0x04u8,
            ApplicationMessageType::INVALID => 0xFFu8,
        },
        spec_application_to_bytes(m)[11] == match m.return_code {
            ApplicationMessageReturnCode::Success => 0x00u8,
            ApplicationMessageReturnCode::Error => 0x01u8,
            ApplicationMessageReturnCode::INVALID => 0xFFu8,
        },
{
}

/// Bytes after a complete packet do not change what it decodes to.
pub proof fn lemma_application_trailing_bytes(bytes: Seq<u8>, extra: Seq<u8>)
    requires
        spec_application_from_bytes(bytes) is Ok,
    ensures
        spec_application_from_bytes(bytes + extra) == spec_application_from_bytes(bytes),
{
    let c = bytes + extra;
    assert(c.subrange(0, 2) =~= bytes.subrange(0, 2));
    assert(c.subrange(2, 4) =~= bytes.subrange(2, 4));
    assert(c.subrange(4, 8) =~= bytes.subrange(4, 8));
    assert(c.subrange(8, 10) =~= bytes.subrange(8, 10));
    assert(c.subrange(12, 16) =~= bytes.subrange(12, 16));
    let n = from_be32(bytes.subrange(12, 16));
    assert(c.subrange(16, 16 + n) =~= bytes.subrange(16, 16 + n));
    assert(c[10] == bytes[10] && c[11] == bytes[11]);
}

/// A packet can be framed from the start of any bytes that begin with its
/// encoding, whatever follows it, and it decodes to the packet sent.
pub proof fn lemma_packet_framed_before_trailing_bytes(m: ApplicationMessage, extra: Seq<u8>, received: ApplicationMessage)
    requires
        m.encodable(),
    ensures
        ApplicationMessage::decodable(m.encoding() + extra),
        ApplicationMessage::decodes_to(m.encoding() + extra, received) ==> received@ == m@,
{
    lemma_application_roundtrip(m@);
    lemma_application_trailing_bytes(m.encoding(), extra);
}

/// A byte sequence can be framed as a packet exactly when it holds the
/// 16-byte header and the payload length the header announces.
pub proof fn lemma_decodable_by_length(bytes: Seq<u8>)
    ensures
        ApplicationMessage::decodable(bytes) <==> bytes.len() >= 16 && bytes.len() >= 16 + from_be32(
            bytes.subrange(12, 16),
        ),
{
}

} // verus!
