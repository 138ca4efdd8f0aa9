//! Values that travel over the transport as byte sequences.

use vstd::prelude::*;

use crate::codec::DecodeError;

verus! {

/// A value with a byte encoding that the transport sends and frames.
pub trait Serializable: Sized {
    /// Whether the value can be encoded: its lengths fit the wire format.
    spec fn encodable(&self) -> bool;

    /// The bytes that encode the value.
    spec fn encoding(&self) -> Seq<u8>;

    /// Whether `bytes` begin with a complete encoded value.
    spec fn decodable(bytes: Seq<u8>) -> bool;

    /// Whether `value` is what the start of `bytes` decodes to.
    spec fn decodes_to(bytes: Seq<u8>, value: Self) -> bool;

    /// Encodes the value.
    fn to_bytes(&self) -> (bytes: Vec<u8>)
        requires
            self.encodable(),
        ensures
            bytes@ == self.encoding(),
    ;

    /// Decodes a value from the start of `bytes`.
    fn from_bytes(bytes: &[u8]) -> (res: Result<Self, DecodeError>)
        ensures
            res is Ok <==> Self::decodable(bytes@),
            res matches Ok(v) ==> Self::decodes_to(bytes@, v),
    ;

    /// Decoding the encoding of a value gives the value back.
    proof fn lemma_roundtrip(&self)
        requires
            self.encodable(),
        ensures
            Self::decodable(self.encoding()),
            Self::decodes_to(self.encoding(), *self),
    ;
}

} // verus!
