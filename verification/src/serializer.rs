//! The structured encoder: a field-by-field adapter that maps scalars,
//! strings, byte slices and sequence headers onto the primitive codec.
//!
//! Field values are written in declaration order, depth first. Shapes the
//! protocol does not use on the wire — characters, maps, options through
//! this adapter, tuples, data-carrying enum variants, unit values — have no
//! methods here: asking for them is a compile error, not a runtime fault.

use vstd::prelude::*;
use vstd::utf8::encode_utf8;

use crate::bytebuf::{
    string_encoding, u16_be_bytes, u16_of_i16, u32_be_bytes, u32_of_i32, u64_be_bytes, u64_of_i64,
    u8_of_i8, ByteBuffer,
};
use crate::codec::var_int::{varint_encoding, VarInt};

verus! {

/// Why the structured encoder refused a value.
#[derive(Debug)]
pub enum SerializerError {
    /// A human-readable description of the fault.
    Message(String),
}

/// A structured-value encoder writing into a [`ByteBuffer`].
///
/// Its view is the view of its output buffer: the bytes produced so far.
pub struct Serializer {
    output: ByteBuffer,
}

impl View for Serializer {
    type V = Seq<u8>;

    closed spec fn view(&self) -> Seq<u8> {
        self.output@
    }
}

impl Serializer {
    /// An encoder writing into the given buffer.
    pub fn new(buf: ByteBuffer) -> (r: Serializer)
        ensures
            r@ == buf@,
    {
        Serializer { output: buf }
    }

    /// The output buffer written so far.
    pub fn output_ref(&self) -> (r: &ByteBuffer)
        ensures
            r@ == self@,
    {
        &self.output
    }

    /// The output buffer, for writing primitives directly.
    pub fn output_mut(&mut self) -> (r: &mut ByteBuffer)
        ensures
            r@ == old(self)@,
            final(self)@ == final(r)@,
    {
        &mut self.output
    }

    /// Writes `1` for true, `0` for false.
    pub fn serialize_bool(&mut self, v: bool) -> (r: Result<(), SerializerError>)
        ensures
            r is Ok,
            final(self)@ == old(self)@.push(if v { 1u8 } else { 0u8 }),
    {
        self.output.put_bool(v);
        Ok(())
    }

    /// Writes the bytes as they are, with no length prefix.
    pub fn serialize_bytes(&mut self, v: &[u8]) -> (r: Result<(), SerializerError>)
        ensures
            r is Ok,
            final(self)@ == old(self)@ + v@,
    {
        self.output.put_slice(v);
        Ok(())
    }

    /// Writes one signed byte.
    pub fn serialize_i8(&mut self, v: i8) -> (r: Result<(), SerializerError>)
        ensures
            r is Ok,
            final(self)@ == old(self)@.push(u8_of_i8(v)),
    {
        self.output.put_i8(v);
        Ok(())
    }

    /// Writes two big-endian bytes.
    pub fn serialize_i16(&mut self, v: i16) -> (r: Result<(), SerializerError>)
        ensures
            r is Ok,
            final(self)@ == old(self)@ + u16_be_bytes(u16_of_i16(v)),
    {
        self.output.put_i16(v);
        Ok(())
    }

    /// Writes four big-endian bytes.
    pub fn serialize_i32(&mut self, v: i32) -> (r: Result<(), SerializerError>)
        ensures
            r is Ok,
            final(self)@ == old(self)@ + u32_be_bytes(u32_of_i32(v)),
    {
        self.output.put_i32(v);
        Ok(())
    }

    /// Writes eight big-endian bytes.
    pub fn serialize_i64(&mut self, v: i64) -> (r: Result<(), SerializerError>)
        ensures
            r is Ok,
            final(self)@ == old(self)@ + u64_be_bytes(u64_of_i64(v)),
    {
        self.output.put_i64(v);
        Ok(())
    }

    /// Writes one byte.
    pub fn serialize_u8(&mut self, v: u8) -> (r: Result<(), SerializerError>)
        ensures
            r is Ok,
            final(self)@ == old(self)@.push(v),
    {
        self.output.put_u8(v);
        Ok(())
    }

    /// Writes two big-endian bytes.
    pub fn serialize_u16(&mut self, v: u16) -> (r: Result<(), SerializerError>)
        ensures
            r is Ok,
            final(self)@ == old(self)@ + u16_be_bytes(v),
    {
        self.output.put_u16(v);
        Ok(())
    }

    /// Writes four big-endian bytes.
    pub fn serialize_u32(&mut self, v: u32) -> (r: Result<(), SerializerError>)
        ensures
            r is Ok,
            final(self)@ == old(self)@ + u32_be_bytes(v),
    {
        self.output.put_u32(v);
        Ok(())
    }

    /// Writes eight big-endian bytes.
    pub fn serialize_u64(&mut self, v: u64) -> (r: Result<(), SerializerError>)
        ensures
            r is Ok,
            final(self)@ == old(self)@ + u64_be_bytes(v),
    {
        self.output.put_u64(v);
        Ok(())
    }

    /// Writes a length-prefixed string under the default bound.
    pub fn serialize_str(&mut self, v: &str) -> (r: Result<(), SerializerError>)
        requires
            encode_utf8(v@).len() <= 32767,
        ensures
            r is Ok,
            final(self)@ == old(self)@ + string_encoding(v@),
    {
        self.output.put_string(v);
        Ok(())
    }

    /// Starts a sequence: every sequence on the wire carries a VarInt
    /// element count, so the count must be known. A known count is written
    /// as the prefix and the elements follow through the element-typed
    /// methods; an unknown count is refused outright, never silently
    /// skipped, since a stream without the prefix would still look
    /// plausible to the peer.
    pub fn serialize_seq(&mut self, len: Option<usize>) -> (r: Result<(), SerializerError>)
        requires
            match len {
                Some(n) => n <= 0x7fff_ffff,
                None => true,
            },
        ensures
            r is Ok <==> len is Some,
            match len {
                Some(n) => final(self)@ == old(self)@ + varint_encoding(n as i32),
                None => final(self)@ == old(self)@,
            },
    {
        match len {
            Some(n) => {
                self.output.put_var_int(&VarInt(n as i32));
                proof {
                    assert(final(self)@ =~= old(self)@ + varint_encoding(n as i32));
                }
                Ok(())
            },
            None => Err(
                SerializerError::Message(
                    "a sequence needs a known element count for its length prefix".to_owned(),
                ),
            ),
        }
    }
}

impl From<Serializer> for ByteBuffer {
    /// Hands the output buffer back, consuming the encoder.
    fn from(val: Serializer) -> (r: ByteBuffer) {
        val.output
    }
}

impl vstd::std_specs::convert::FromSpecImpl<Serializer> for ByteBuffer {
    open spec fn obeys_from_spec() -> bool {
        true
    }

    closed spec fn from_spec(val: Serializer) -> ByteBuffer {
        val.output
    }
}

/// Converting the encoder into a buffer hands its bytes back unchanged.
pub proof fn lemma_serializer_into_buffer(s: Serializer)
    ensures
        <ByteBuffer as vstd::std_specs::convert::FromSpec<Serializer>>::from_spec(s)@ == s@,
{
}

} // verus!
