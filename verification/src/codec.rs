//! The message codec capability.
//!
//! The channel treats an encoded message as an opaque byte payload; the
//! message format itself is supplied by a collaborator through the [`Message`]
//! trait. Two small codecs live here: [`RawMessage`], whose messages are
//! exactly their payload bytes, and [`TaggedMessage`], a framed form whose
//! decoder can fail in each classified way.

use vstd::prelude::*;
use crate::wire::copy_bytes;

verus! {

/// Why a frame body could not be decoded into a message.
#[derive(Clone, Copy, Debug, PartialEq, Eq, Structural, Hash)]
pub enum DecodeError {
    /// The bytes do not follow the message wire structure.
    MalformedStructure,
    /// A text field holds bytes that are not valid character data.
    InvalidText,
    /// A required part of the message is absent.
    MissingField,
}

/// The encode/decode capability a message format supplies to the channel.
///
/// `decodes_to` is the format's meaning: which byte sequences stand for which
/// messages. The two laws tie the executable operations to it: every valid
/// message's encoding decodes back to it, and a byte sequence stands for at
/// most one encoding.
pub trait Message: Sized {
    /// Whether the codec can faithfully encode this message.
    spec fn valid(self) -> bool;

    /// The bytes this message encodes to.
    spec fn encoding(self) -> Seq<u8>;

    /// Whether `bytes` stand for the message `m`.
    spec fn decodes_to(bytes: Seq<u8>, m: Self) -> bool;

    /// Whether the codec can decode `bytes` into some message.
    spec fn decodable(bytes: Seq<u8>) -> bool;

    fn encode(&self) -> (r: Vec<u8>)
        requires
            self.valid(),
        ensures
            r@ == self.encoding(),
    ;

    fn decode(bytes: &Vec<u8>) -> (r: Result<Self, DecodeError>)
        ensures
            r is Ok <==> Self::decodable(bytes@),
            r matches Ok(m) ==> Self::decodes_to(bytes@, m) && m.valid(),
    ;

    /// Law: a valid message's encoding stands for the message itself, and
    /// the codec can decode it.
    proof fn lemma_encoding_decodes(self)
        requires
            self.valid(),
        ensures
            Self::decodes_to(self.encoding(), self),
            Self::decodable(self.encoding()),
    ;

    /// Law: bytes that stand for a message are decodable.
    proof fn lemma_decodes_to_decodable(bytes: Seq<u8>, m: Self)
        requires
            Self::decodes_to(bytes, m),
        ensures
            Self::decodable(bytes),
    ;

    /// Law: two messages the same bytes stand for have the same encoding.
    proof fn lemma_decode_deterministic(bytes: Seq<u8>, m1: Self, m2: Self)
        requires
            Self::decodes_to(bytes, m1),
            Self::decodes_to(bytes, m2),
        ensures
            m1.encoding() == m2.encoding(),
    ;
}

/// A message that is exactly its payload bytes: the trivial codec.
#[derive(Debug, Clone, PartialEq, Eq)]
pub struct RawMessage {
    pub bytes: Vec<u8>,
}

impl Message for RawMessage {
    open spec fn valid(self) -> bool {
        true
    }

    open spec fn encoding(self) -> Seq<u8> {
        self.bytes@
    }

    open spec fn decodes_to(bytes: Seq<u8>, m: Self) -> bool {
        m.bytes@ == bytes
    }

    open spec fn decodable(bytes: Seq<u8>) -> bool {
        true
    }

    fn encode(&self) -> (r: Vec<u8>) {
        copy_bytes(&self.bytes)
    }

    fn decode(bytes: &Vec<u8>) -> (r: Result<Self, DecodeError>) {
        Ok(RawMessage { bytes: copy_bytes(bytes) })
    }

    proof fn lemma_encoding_decodes(self) {
    }

    proof fn lemma_decodes_to_decodable(bytes: Seq<u8>, m: Self) {
    }

    proof fn lemma_decode_deterministic(bytes: Seq<u8>, m1: Self, m2: Self) {
    }
}

/// The leading byte every tagged message starts with.
pub const MESSAGE_TAG: u8 = 1;

/// Whether every byte is seven-bit character data.
pub open spec fn ascii_only(s: Seq<u8>) -> bool {
    forall|i: int| 0 <= i < s.len() ==> s[i] < 128
}

/// A message framed as a tag byte followed by a seven-bit text payload.
/// Decoding rejects an empty body, a wrong tag, and non-text payload bytes.
#[derive(Debug, Clone, PartialEq, Eq)]
pub struct TaggedMessage {
    pub payload: Vec<u8>,
}

impl Message for TaggedMessage {
    open spec fn valid(self) -> bool {
        ascii_only(self.payload@)
    }

    open spec fn encoding(self) -> Seq<u8> {
        seq![MESSAGE_TAG] + self.payload@
    }

    open spec fn decodes_to(bytes: Seq<u8>, m: Self) -> bool {
        &&& bytes.len() >= 1
        &&& bytes[0] == MESSAGE_TAG
        &&& ascii_only(bytes.skip(1))
        &&& m.payload@ == bytes.skip(1)
    }

    open spec fn decodable(bytes: Seq<u8>) -> bool {
        bytes.len() >= 1 && bytes[0] == MESSAGE_TAG && ascii_only(bytes.skip(1))
    }

    fn encode(&self) -> (r: Vec<u8>) {
        let mut r: Vec<u8> = Vec::new();
        r.push(MESSAGE_TAG);
        crate::wire::append_bytes(&mut r, &self.payload);
        proof {
            assert(r@ =~= self.encoding());
        }
        r
    }

    fn decode(bytes: &Vec<u8>) -> (r: Result<Self, DecodeError>) {
        if bytes.len() == 0 {
            return Err(DecodeError::MissingField);
        }
        if bytes[0] != MESSAGE_TAG {
            return Err(DecodeError::MalformedStructure);
        }
        let payload = crate::wire::drop_front(bytes, 1);
        let mut i: usize = 0;
        while i < payload.len()
            invariant
                i <= payload@.len(),
                payload@ == bytes@.skip(1),
                bytes@.len() >= 1,
                bytes@[0] == MESSAGE_TAG,
                forall|k: int| 0 <= k < i ==> payload@[k] < 128,
            decreases payload@.len() - i,
        {
            if payload[i] >= 128 {
                return Err(DecodeError::InvalidText);
            }
            i += 1;
        }
        Ok(TaggedMessage { payload })
    }

    proof fn lemma_encoding_decodes(self) {
        assert(self.encoding().skip(1) =~= self.payload@);
    }

    proof fn lemma_decodes_to_decodable(bytes: Seq<u8>, m: Self) {
    }

    proof fn lemma_decode_deterministic(bytes: Seq<u8>, m1: Self, m2: Self) {
        assert(m1.encoding() =~= m2.encoding());
    }
}

} // verus!
