//! Big-endian integer encoding shared by all packet formats, and the error
//! reported when a byte sequence does not decode.

use byteorder::{BigEndian, ByteOrder};
use vstd::prelude::*;

verus! {

/// Why a byte sequence could not be decoded into a packet.
#[derive(Debug, Clone, Copy, PartialEq, Eq, Structural)]
pub enum DecodeError {
    /// The input ended before the packet was complete.
    UnexpectedEnd,
    /// The input was empty where at least one byte is needed.
    EmptyInput,
    /// The packet's type byte is not one this format knows.
    UnknownMessageType(u8),
}

/// The two bytes of `v`, most significant first.
pub open spec fn be16(v: u16) -> Seq<u8> {
    seq![(v / 256) as u8, (v % 256) as u8]
}

/// The four bytes of `v`, most significant first.
pub open spec fn be32(v: u32) -> Seq<u8> {
    seq![
        (v / 0x100_0000) as u8,
        ((v / 0x1_0000) % 256) as u8,
        ((v / 256) % 256) as u8,
        (v % 256) as u8,
    ]
}

/// The `u16` whose big-endian bytes are the first two of `b`.
pub open spec fn from_be16(b: Seq<u8>) -> u16 {
    (b[0] * 256 + b[1]) as u16
}

/// The `u32` whose big-endian bytes are the first four of `b`.
pub open spec fn from_be32(b: Seq<u8>) -> u32 {
    (b[0] * 0x100_0000 + b[1] * 0x1_0000 + b[2] * 256 + b[3]) as u32
}

/// Decoding the encoding of a `u16` gives it back.
pub proof fn lemma_be16_roundtrip(v: u16)
    ensures
        from_be16(be16(v)) == v,
        be16(v).len() == 2,
{
}

/// Encoding the decoding of two bytes gives them back.
pub proof fn lemma_be16_of_bytes(b: Seq<u8>)
    requires
        b.len() >= 2,
    ensures
        be16(from_be16(b)) =~= b.take(2),
{
}

/// Decoding the encoding of a `u32` gives it back.
pub proof fn lemma_be32_roundtrip(v: u32)
    ensures
        from_be32(be32(v)) == v,
        be32(v).len() == 4,
{
}

/// Encoding the decoding of four bytes gives them back.
pub proof fn lemma_be32_of_bytes(b: Seq<u8>)
    requires
        b.len() >= 4,
    ensures
        be32(from_be32(b)) =~= b.take(4),
{
    let (b0, b1, b2, b3) = (b[0] as int, b[1] as int, b[2] as int, b[3] as int);
    let v = b0 * 0x100_0000 + b1 * 0x1_0000 + b2 * 256 + b3;
    assert(0 <= v < 0x1_0000_0000);
    assert(from_be32(b) == v);
    assert(v / 0x100_0000 == b0) by (nonlinear_arith)
        requires
            v == b0 * 0x100_0000 + b1 * 0x1_0000 + b2 * 256 + b3,
            0 <= b1 < 256,
            0 <= b2 < 256,
            0 <= b3 < 256,
    ;
    assert((v / 0x1_0000) % 256 == b1) by (nonlinear_arith)
        requires
            v == b0 * 0x100_0000 + b1 * 0x1_0000 + b2 * 256 + b3,
            0 <= b0 < 256,
            0 <= b1 < 256,
            0 <= b2 < 256,
            0 <= b3 < 256,
    ;
    assert((v / 256) % 256 == b2) by (nonlinear_arith)
        requires
            v == b0 * 0x100_0000 + b1 * 0x1_0000 + b2 * 256 + b3,
            0 <= b0 < 256,
            0 <= b1 < 256,
            0 <= b2 < 256,
            0 <= b3 < 256,
    ;
    assert(v % 256 == b3) by (nonlinear_arith)
        requires
            v == b0 * 0x100_0000 + b1 * 0x1_0000 + b2 * 256 + b3,
            0 <= b3 < 256,
    ;
}

/// The shifts and truncations the packet code uses split a `u16` as `be16` does.
pub proof fn lemma_u16_halves(v: u16)
    ensures
        (v >> 8u16) as u8 == v / 256,
        v as u8 == v % 256,
{
    assert((v >> 8u16) as u8 == v / 256) by (bit_vector);
    assert(v as u8 == v % 256) by (bit_vector);
}

/// byteorder's `BigEndian::read_u16` on the two bytes at `pos`: it reads them
/// most significant first (its slice form panics on fewer than two bytes,
/// which `requires` rules out).
#[verifier::external_body]
pub(crate) fn read_be_u16(buf: &[u8], pos: usize) -> (v: u16)
    requires
        pos + 2 <= buf@.len(),
    ensures
        v == from_be16(buf@.subrange(pos as int, pos + 2)),
{
    BigEndian::read_u16(&buf[pos..pos + 2])
}

/// byteorder's `BigEndian::read_u32` on the four bytes at `pos`, most
/// significant first.
#[verifier::external_body]
pub(crate) fn read_be_u32(buf: &[u8], pos: usize) -> (v: u32)
    requires
        pos + 4 <= buf@.len(),
    ensures
        v == from_be32(buf@.subrange(pos as int, pos + 4)),
{
    BigEndian::read_u32(&buf[pos..pos + 4])
}

/// byteorder's `BigEndian::write_u16` into a fresh two-byte buffer: it stores
/// the most significant byte first.
#[verifier::external_body]
pub(crate) fn be_u16_bytes(v: u16) -> (b: [u8; 2])
    ensures
        b@ == be16(v),
{
    let mut b = [0u8; 2];
    BigEndian::write_u16(&mut b, v);
    b
}

/// byteorder's `BigEndian::write_u32` into a fresh four-byte buffer: it stores
/// the most significant byte first.
#[verifier::external_body]
pub(crate) fn be_u32_bytes(v: u32) -> (b: [u8; 4])
    ensures
        b@ == be32(v),
{
    let mut b = [0u8; 4];
    BigEndian::write_u32(&mut b, v);
    b
}

/// Appends the big-endian bytes of `v`.
pub fn push_be_u16(buf: &mut Vec<u8>, v: u16)
    ensures
        final(buf)@ == old(buf)@ + be16(v),
{
    let b = be_u16_bytes(v);
    buf.push(b[0]);
    buf.push(b[1]);
    assert(buf@ =~= old(buf)@ + be16(v));
}

/// Appends the big-endian bytes of `v`.
pub fn push_be_u32(buf: &mut Vec<u8>, v: u32)
    ensures
        final(buf)@ == old(buf)@ + be32(v),
{
    let b = be_u32_bytes(v);
    buf.push(b[0]);
    buf.push(b[1]);
    buf.push(b[2]);
    buf.push(b[3]);
    assert(buf@ =~= old(buf)@ + be32(v));
}

/// Appends all of `data`.
pub fn push_all(buf: &mut Vec<u8>, data: &[u8])
    ensures
        final(buf)@ == old(buf)@ + data@,
{
    buf.extend_from_slice(data);
    assert(buf@ =~= old(buf)@ + data@);
}

/// The text that std's `String::from_utf8_lossy` makes of a byte sequence.
pub uninterp spec fn utf8_lossy(bytes: Seq<u8>) -> Seq<char>;

/// The text of received bytes: their UTF-8 decoding where they are valid
/// UTF-8, and otherwise what lossy decoding makes of them.
pub open spec fn text_of_bytes(bytes: Seq<u8>) -> Seq<char> {
    if vstd::utf8::valid_utf8(bytes) {
        vstd::utf8::decode_utf8(bytes)
    } else {
        utf8_lossy(bytes)
    }
}

/// std's `String::from_utf8_lossy`, made owned. It decodes UTF-8, putting
/// U+FFFD in place of each invalid sequence; its documentation states that
/// valid UTF-8 is decoded without change. What it makes of invalid input is
/// only named here, not spelled out.
#[verifier::external_body]
pub(crate) fn decode_utf8_lossy(bytes: &[u8]) -> (s: String)
    ensures
        s@ == utf8_lossy(bytes@),
        s@ == text_of_bytes(bytes@),
{
    String::from_utf8_lossy(bytes).into_owned()
}

/// The text of the UTF-8 encoding of a text is that text.
pub proof fn lemma_text_of_encoding(text: Seq<char>)
    ensures
        text_of_bytes(vstd::utf8::encode_utf8(text)) == text,
{
    vstd::utf8::encode_utf8_valid_utf8(text);
    vstd::utf8::encode_utf8_decode_utf8(text);
}

} // verus!
