//! Growable output buffer and position-tracking input cursor, with the
//! fixed-width primitive codec.
//!
//! Every write is specified byte-for-byte: a `put_*` method appends exactly
//! the big-endian encoding of its argument, and a `try_get_*` method reads
//! those bytes back, failing with a [`ReadingError`] when the input is short.

use vstd::prelude::*;
use vstd::utf8::{decode_utf8, encode_utf8, valid_utf8};

use crate::codec::bit_set::{bitset_bytes, BitSet};
use crate::codec::identifier::Identifier;
use crate::codec::uuid::{uuid_bytes, uuid_of_bytes, Uuid};
use crate::codec::var_int::{
    varint_decodes, varint_encoding, varint_incomplete, varint_len, varint_too_large, varint_value,
    VarInt,
};
use crate::codec::var_long::{
    varlong_decodes, varlong_incomplete, varlong_len, varlong_too_large, varlong_value, VarLong,
};
use crate::codec::{
    elems_decode, elems_len, elems_values, lemma_elems_decode_fail, lemma_elems_len_bounds,
    lemma_elems_snoc, lemma_term_index_take_none, Decode, DecodeError, Encode,
};

verus! {

/// Why a decode operation failed. All are recoverable at the connection
/// boundary: the caller drops the connection, never the process.
#[derive(Debug)]
pub enum ReadingError {
    /// Not enough bytes left to read the named primitive.
    EOF(String),
    /// A multi-byte primitive ended before its terminating byte.
    Incomplete(String),
    /// A declared or actual size exceeds a bound.
    TooLarge(String),
    /// Structurally present but semantically invalid content.
    Message(String),
}

/// A byte-packed bitmap read from the wire, `ceil(bits / 8)` bytes long.
pub type FixedBitSet = Vec<u8>;

/// The two big-endian bytes of a 16-bit value, most significant first.
pub open spec fn u16_be_bytes(x: u16) -> Seq<u8> {
    seq![((x >> 8) & 0xff) as u8, (x & 0xff) as u8]
}

/// The 16-bit value with big-endian bytes `b0 b1`.
pub open spec fn u16_of_be(b0: u8, b1: u8) -> u16 {
    (((b0 as u16) << 8) | (b1 as u16)) as u16
}

/// The four big-endian bytes of a 32-bit value, most significant first.
pub open spec fn u32_be_bytes(x: u32) -> Seq<u8> {
    seq![
        ((x >> 24) & 0xff) as u8,
        ((x >> 16) & 0xff) as u8,
        ((x >> 8) & 0xff) as u8,
        (x & 0xff) as u8,
    ]
}

/// The 32-bit value with big-endian bytes `b0 b1 b2 b3`.
pub open spec fn u32_of_be(b0: u8, b1: u8, b2: u8, b3: u8) -> u32 {
    (((b0 as u32) << 24) | ((b1 as u32) << 16) | ((b2 as u32) << 8) | (b3 as u32)) as u32
}

/// The eight big-endian bytes of a 64-bit value, most significant first.
pub open spec fn u64_be_bytes(x: u64) -> Seq<u8> {
    seq![
        ((x >> 56) & 0xff) as u8,
        ((x >> 48) & 0xff) as u8,
        ((x >> 40) & 0xff) as u8,
        ((x >> 32) & 0xff) as u8,
        ((x >> 24) & 0xff) as u8,
        ((x >> 16) & 0xff) as u8,
        ((x >> 8) & 0xff) as u8,
        (x & 0xff) as u8,
    ]
}

/// The 64-bit value with big-endian bytes `b0 .. b7`.
pub open spec fn u64_of_be(
    b0: u8,
    b1: u8,
    b2: u8,
    b3: u8,
    b4: u8,
    b5: u8,
    b6: u8,
    b7: u8,
) -> u64 {
    (((b0 as u64) << 56) | ((b1 as u64) << 48) | ((b2 as u64) << 40) | ((b3 as u64) << 32) | ((b4
        as u64) << 24) | ((b5 as u64) << 16) | ((b6 as u64) << 8) | (b7 as u64)) as u64
}

/// The unsigned 32-bit value with the same bit pattern as `x`.
pub open spec fn u32_of_i32(x: i32) -> u32 {
    if x >= 0 {
        x as u32
    } else {
        (x + 0x1_0000_0000) as u32
    }
}

/// The signed 32-bit value with the same bit pattern as `x`.
pub open spec fn i32_of_u32(x: u32) -> i32 {
    if x < 0x8000_0000 {
        x as i32
    } else {
        (x - 0x1_0000_0000) as i32
    }
}

/// The unsigned 64-bit value with the same bit pattern as `x`.
pub open spec fn u64_of_i64(x: i64) -> u64 {
    if x >= 0 {
        x as u64
    } else {
        (x + 0x1_0000_0000_0000_0000) as u64
    }
}

/// The signed 64-bit value with the same bit pattern as `x`.
pub open spec fn i64_of_u64(x: u64) -> i64 {
    if x < 0x8000_0000_0000_0000 {
        x as i64
    } else {
        (x - 0x1_0000_0000_0000_0000) as i64
    }
}

/// The unsigned 16-bit value with the same bit pattern as `x`.
pub open spec fn u16_of_i16(x: i16) -> u16 {
    if x >= 0 {
        x as u16
    } else {
        (x + 0x1_0000) as u16
    }
}

/// The signed 16-bit value with the same bit pattern as `x`.
pub open spec fn i16_of_u16(x: u16) -> i16 {
    if x < 0x8000 {
        x as i16
    } else {
        (x - 0x1_0000) as i16
    }
}

/// The unsigned byte with the same bit pattern as `x`.
pub open spec fn u8_of_i8(x: i8) -> u8 {
    if x >= 0 {
        x as u8
    } else {
        (x + 0x100) as u8
    }
}

/// The signed byte with the same bit pattern as `x`.
pub open spec fn i8_of_u8(x: u8) -> i8 {
    if x < 0x80 {
        x as i8
    } else {
        (x - 0x100) as i8
    }
}

/// Reading the big-endian bytes of a 16-bit value gives the value back.
pub proof fn lemma_u16_be_round_trip(x: u16)
    ensures
        u16_be_bytes(x).len() == 2,
        u16_of_be(u16_be_bytes(x)[0], u16_be_bytes(x)[1]) == x,
{
    assert((((((x >> 8) & 0xff) as u8) as u16) << 8) | (((x & 0xff) as u8) as u16) == x)
        by (bit_vector);
}

/// Reading the big-endian bytes of a 32-bit value gives the value back.
pub proof fn lemma_u32_be_round_trip(x: u32)
    ensures
        u32_be_bytes(x).len() == 4,
        u32_of_be(
            u32_be_bytes(x)[0],
            u32_be_bytes(x)[1],
            u32_be_bytes(x)[2],
            u32_be_bytes(x)[3],
        ) == x,
{
    assert(((((((x >> 24) & 0xff) as u8) as u32) << 24) | (((((x >> 16) & 0xff) as u8) as u32)
        << 16) | (((((x >> 8) & 0xff) as u8) as u32) << 8) | (((x & 0xff) as u8) as u32)) == x)
        by (bit_vector);
}

/// Reading the big-endian bytes of a 64-bit value gives the value back.
pub proof fn lemma_u64_be_round_trip(x: u64)
    ensures
        u64_be_bytes(x).len() == 8,
        u64_of_be(
            u64_be_bytes(x)[0],
            u64_be_bytes(x)[1],
            u64_be_bytes(x)[2],
            u64_be_bytes(x)[3],
            u64_be_bytes(x)[4],
            u64_be_bytes(x)[5],
            u64_be_bytes(x)[6],
            u64_be_bytes(x)[7],
        ) == x,
{
    assert(((((((x >> 56) & 0xff) as u8) as u64) << 56) | (((((x >> 48) & 0xff) as u8) as u64)
        << 48) | (((((x >> 40) & 0xff) as u8) as u64) << 40) | (((((x >> 32) & 0xff) as u8) as u64)
        << 32) | (((((x >> 24) & 0xff) as u8) as u64) << 24) | (((((x >> 16) & 0xff) as u8) as u64)
        << 16) | (((((x >> 8) & 0xff) as u8) as u64) << 8) | (((x & 0xff) as u8) as u64)) == x)
        by (bit_vector);
}


/// A growable output buffer that packets are encoded into.
///
/// Its view is the sequence of bytes written so far; every `put_*` method
/// states exactly which bytes it appends.
pub struct ByteBuffer {
    data: Vec<u8>,
}

impl View for ByteBuffer {
    type V = Seq<u8>;

    closed spec fn view(&self) -> Seq<u8> {
        self.data@
    }
}

impl ByteBuffer {
    /// An empty buffer.
    pub fn new() -> (r: ByteBuffer)
        ensures
            r@ == Seq::<u8>::empty(),
    {
        ByteBuffer { data: Vec::new() }
    }

    /// The number of bytes written so far.
    pub fn len(&self) -> (r: usize)
        ensures
            r == self@.len(),
    {
        self.data.len()
    }

    /// Hands the written bytes out, consuming the buffer.
    pub fn into_vec(self) -> (r: Vec<u8>)
        ensures
            r@ == self@,
    {
        self.data
    }

    /// The bytes written so far.
    pub fn as_slice(&self) -> (r: &[u8])
        ensures
            r@ == self@,
    {
        self.data.as_slice()
    }

    /// Appends one byte.
    pub fn put_u8(&mut self, v: u8)
        ensures
            final(self)@ == old(self)@.push(v),
    {
        self.data.push(v);
    }

    /// Appends a copy of the given bytes.
    pub fn put_slice(&mut self, v: &[u8])
        ensures
            final(self)@ == old(self)@ + v@,
    {
        self.data.extend_from_slice(v);
    }

    /// Appends `1` for true and `0` for false.
    pub fn put_bool(&mut self, v: bool)
        ensures
            final(self)@ == old(self)@.push(if v { 1u8 } else { 0u8 }),
    {
        if v {
            self.put_u8(1);
        } else {
            self.put_u8(0);
        }
    }

    /// Appends the two big-endian bytes of `v`.
    pub fn put_u16(&mut self, v: u16)
        ensures
            final(self)@ == old(self)@ + u16_be_bytes(v),
    {
        proof {
            assert((v >> 8) & 0xff < 256 && v & 0xff < 256) by (bit_vector);
        }
        self.data.push(((v >> 8) & 0xff) as u8);
        self.data.push((v & 0xff) as u8);
        proof {
            assert(self@ =~= old(self)@ + u16_be_bytes(v));
        }
    }

    /// Appends the four big-endian bytes of `v`.
    pub fn put_u32(&mut self, v: u32)
        ensures
            final(self)@ == old(self)@ + u32_be_bytes(v),
    {
        proof {
            assert((v >> 24) & 0xff < 256 && (v >> 16) & 0xff < 256 && (v >> 8) & 0xff < 256 && v
                & 0xff < 256) by (bit_vector);
        }
        self.data.push(((v >> 24) & 0xff) as u8);
        self.data.push(((v >> 16) & 0xff) as u8);
        self.data.push(((v >> 8) & 0xff) as u8);
        self.data.push((v & 0xff) as u8);
        proof {
            assert(self@ =~= old(self)@ + u32_be_bytes(v));
        }
    }

    /// Appends the eight big-endian bytes of `v`.
    pub fn put_u64(&mut self, v: u64)
        ensures
            final(self)@ == old(self)@ + u64_be_bytes(v),
    {
        proof {
            assert((v >> 56) & 0xff < 256 && (v >> 48) & 0xff < 256 && (v >> 40) & 0xff < 256 && (v
                >> 32) & 0xff < 256 && (v >> 24) & 0xff < 256 && (v >> 16) & 0xff < 256 && (v >> 8)
                & 0xff < 256 && v & 0xff < 256) by (bit_vector);
        }
        self.data.push(((v >> 56) & 0xff) as u8);
        self.data.push(((v >> 48) & 0xff) as u8);
        self.data.push(((v >> 40) & 0xff) as u8);
        self.data.push(((v >> 32) & 0xff) as u8);
        self.data.push(((v >> 24) & 0xff) as u8);
        self.data.push(((v >> 16) & 0xff) as u8);
        self.data.push(((v >> 8) & 0xff) as u8);
        self.data.push((v & 0xff) as u8);
        proof {
            assert(self@ =~= old(self)@ + u64_be_bytes(v));
        }
    }

    /// Appends the byte holding the bit pattern of `v`.
    pub fn put_i8(&mut self, v: i8)
        ensures
            final(self)@ == old(self)@.push(u8_of_i8(v)),
    {
        proof {
            assert(v as u8 == u8_of_i8(v)) by (bit_vector);
        }
        self.put_u8(v as u8);
    }

    /// Appends the two big-endian bytes of the bit pattern of `v`.
    pub fn put_i16(&mut self, v: i16)
        ensures
            final(self)@ == old(self)@ + u16_be_bytes(u16_of_i16(v)),
    {
        proof {
            assert(v as u16 == u16_of_i16(v)) by (bit_vector);
        }
        self.put_u16(v as u16);
    }

    /// Appends the four big-endian bytes of the bit pattern of `v`.
    pub fn put_i32(&mut self, v: i32)
        ensures
            final(self)@ == old(self)@ + u32_be_bytes(u32_of_i32(v)),
    {
        proof {
            assert(v as u32 == u32_of_i32(v)) by (bit_vector);
        }
        self.put_u32(v as u32);
    }

    /// Appends the eight big-endian bytes of the bit pattern of `v`.
    pub fn put_i64(&mut self, v: i64)
        ensures
            final(self)@ == old(self)@ + u64_be_bytes(u64_of_i64(v)),
    {
        proof {
            assert(v as u64 == u64_of_i64(v)) by (bit_vector);
        }
        self.put_u64(v as u64);
    }
}

/// A position-tracking view over received bytes, consumed front to back.
///
/// Its view is the sequence of bytes not yet consumed; every successful read
/// states exactly which prefix it took.
pub struct ByteCursor {
    data: Vec<u8>,
    pos: usize,
}

impl View for ByteCursor {
    type V = Seq<u8>;

    closed spec fn view(&self) -> Seq<u8> {
        self.data@.skip(self.pos as int)
    }
}

impl ByteCursor {
    /// The position never runs past the end of the underlying bytes.
    pub closed spec fn wf(&self) -> bool {
        self.pos <= self.data@.len()
    }

    /// A cursor at the start of the given bytes.
    pub fn new(data: Vec<u8>) -> (r: ByteCursor)
        ensures
            r.wf(),
            r@ == data@,
    {
        let r = ByteCursor { data, pos: 0 };
        proof {
            assert(r@ =~= r.data@);
        }
        r
    }

    /// The number of bytes not yet consumed.
    pub fn remaining(&self) -> (r: usize)
        requires
            self.wf(),
        ensures
            r == self@.len(),
    {
        self.data.len() - self.pos
    }

    /// Reads one byte.
    pub fn try_get_u8(&mut self) -> (r: Result<u8, ReadingError>)
        requires
            old(self).wf(),
        ensures
            final(self).wf(),
            match r {
                Ok(b) => old(self)@.len() >= 1 && b == old(self)@[0] && final(self)@ == old(self)@.skip(1),
                Err(e) => old(self)@.len() == 0 && e is EOF && final(self)@ == old(self)@,
            },
    {
        if self.pos < self.data.len() {
            let b = self.data[self.pos];
            self.pos = self.pos + 1;
            proof {
                assert(final(self)@ =~= old(self)@.skip(1));
            }
            Ok(b)
        } else {
            Err(ReadingError::EOF("byte".to_owned()))
        }
    }

    /// Reads one byte; any nonzero value is `true`.
    pub fn try_get_bool(&mut self) -> (r: Result<bool, ReadingError>)
        requires
            old(self).wf(),
        ensures
            final(self).wf(),
            match r {
                Ok(b) => old(self)@.len() >= 1 && b == (old(self)@[0] != 0) && final(self)@ == old(self)@.skip(1),
                Err(e) => old(self)@.len() == 0 && e is EOF && final(self)@ == old(self)@,
            },
    {
        match self.try_get_u8() {
            Ok(b) => Ok(b != 0),
            Err(e) => Err(e),
        }
    }

    /// Reads two bytes as a big-endian 16-bit value.
    pub fn try_get_u16(&mut self) -> (r: Result<u16, ReadingError>)
        requires
            old(self).wf(),
        ensures
            final(self).wf(),
            match r {
                Ok(v) => old(self)@.len() >= 2 && v == u16_of_be(old(self)@[0], old(self)@[1])
                    && final(self)@ == old(self)@.skip(2),
                Err(e) => old(self)@.len() < 2 && e is EOF && final(self)@ == old(self)@,
            },
    {
        if self.data.len() - self.pos >= 2 {
            let b0 = self.data[self.pos];
            let b1 = self.data[self.pos + 1];
            self.pos = self.pos + 2;
            proof {
                assert(final(self)@ =~= old(self)@.skip(2));
            }
            Ok(((b0 as u16) << 8) | (b1 as u16))
        } else {
            Err(ReadingError::EOF("u16".to_owned()))
        }
    }

    /// Reads four bytes as a big-endian 32-bit value.
    pub fn try_get_u32(&mut self) -> (r: Result<u32, ReadingError>)
        requires
            old(self).wf(),
        ensures
            final(self).wf(),
            match r {
                Ok(v) => old(self)@.len() >= 4 && v == u32_of_be(
                    old(self)@[0],
                    old(self)@[1],
                    old(self)@[2],
                    old(self)@[3],
                ) && final(self)@ == old(self)@.skip(4),
                Err(e) => old(self)@.len() < 4 && e is EOF && final(self)@ == old(self)@,
            },
    {
        if self.data.len() - self.pos >= 4 {
            let b0 = self.data[self.pos];
            let b1 = self.data[self.pos + 1];
            let b2 = self.data[self.pos + 2];
            let b3 = self.data[self.pos + 3];
            self.pos = self.pos + 4;
            proof {
                assert(final(self)@ =~= old(self)@.skip(4));
            }
            Ok(((b0 as u32) << 24) | ((b1 as u32) << 16) | ((b2 as u32) << 8) | (b3 as u32))
        } else {
            Err(ReadingError::EOF("u32".to_owned()))
        }
    }

    /// Reads eight bytes as a big-endian 64-bit value.
    pub fn try_get_u64(&mut self) -> (r: Result<u64, ReadingError>)
        requires
            old(self).wf(),
        ensures
            final(self).wf(),
            match r {
                Ok(v) => old(self)@.len() >= 8 && v == u64_of_be(
                    old(self)@[0],
                    old(self)@[1],
                    old(self)@[2],
                    old(self)@[3],
                    old(self)@[4],
                    old(self)@[5],
                    old(self)@[6],
                    old(self)@[7],
                ) && final(self)@ == old(self)@.skip(8),
                Err(e) => old(self)@.len() < 8 && e is EOF && final(self)@ == old(self)@,
            },
    {
        if self.data.len() - self.pos >= 8 {
            let b0 = self.data[self.pos];
            let b1 = self.data[self.pos + 1];
            let b2 = self.data[self.pos + 2];
            let b3 = self.data[self.pos + 3];
            let b4 = self.data[self.pos + 4];
            let b5 = self.data[self.pos + 5];
            let b6 = self.data[self.pos + 6];
            let b7 = self.data[self.pos + 7];
            self.pos = self.pos + 8;
            proof {
                assert(final(self)@ =~= old(self)@.skip(8));
            }
            Ok(((b0 as u64) << 56) | ((b1 as u64) << 48) | ((b2 as u64) << 40) | ((b3 as u64)
                << 32) | ((b4 as u64) << 24) | ((b5 as u64) << 16) | ((b6 as u64) << 8) | (b7
                as u64))
        } else {
            Err(ReadingError::EOF("u64".to_owned()))
        }
    }

    /// Reads one byte as a signed value.
    pub fn try_get_i8(&mut self) -> (r: Result<i8, ReadingError>)
        requires
            old(self).wf(),
        ensures
            final(self).wf(),
            match r {
                Ok(v) => old(self)@.len() >= 1 && v == i8_of_u8(old(self)@[0]) && final(self)@
                    == old(self)@.skip(1),
                Err(e) => old(self)@.len() == 0 && e is EOF && final(self)@ == old(self)@,
            },
    {
        match self.try_get_u8() {
            Ok(b) => {
                proof {
                    assert(b as i8 == i8_of_u8(b)) by (bit_vector);
                }
                Ok(b as i8)
            },
            Err(e) => Err(e),
        }
    }

    /// Reads two bytes as a big-endian signed 16-bit value.
    pub fn try_get_i16(&mut self) -> (r: Result<i16, ReadingError>)
        requires
            old(self).wf(),
        ensures
            final(self).wf(),
            match r {
                Ok(v) => old(self)@.len() >= 2 && v == i16_of_u16(
                    u16_of_be(old(self)@[0], old(self)@[1]),
                ) && final(self)@ == old(self)@.skip(2),
                Err(e) => old(self)@.len() < 2 && e is EOF && final(self)@ == old(self)@,
            },
    {
        match self.try_get_u16() {
            Ok(v) => {
                proof {
                    assert(v as i16 == i16_of_u16(v)) by (bit_vector);
                }
                Ok(v as i16)
            },
            Err(e) => Err(e),
        }
    }

    /// Reads four bytes as a big-endian signed 32-bit value.
    pub fn try_get_i32(&mut self) -> (r: Result<i32, ReadingError>)
        requires
            old(self).wf(),
        ensures
            final(self).wf(),
            match r {
                Ok(v) => old(self)@.len() >= 4 && v == i32_of_u32(
                    u32_of_be(old(self)@[0], old(self)@[1], old(self)@[2], old(self)@[3]),
                ) && final(self)@ == old(self)@.skip(4),
                Err(e) => old(self)@.len() < 4 && e is EOF && final(self)@ == old(self)@,
            },
    {
        match self.try_get_u32() {
            Ok(v) => {
                proof {
                    assert(v as i32 == i32_of_u32(v)) by (bit_vector);
                }
                Ok(v as i32)
            },
            Err(e) => Err(e),
        }
    }

    /// Reads eight bytes as a big-endian signed 64-bit value.
    pub fn try_get_i64(&mut self) -> (r: Result<i64, ReadingError>)
        requires
            old(self).wf(),
        ensures
            final(self).wf(),
            match r {
                Ok(v) => old(self)@.len() >= 8 && v == i64_of_u64(
                    u64_of_be(
                        old(self)@[0],
                        old(self)@[1],
                        old(self)@[2],
                        old(self)@[3],
                        old(self)@[4],
                        old(self)@[5],
                        old(self)@[6],
                        old(self)@[7],
                    ),
                ) && final(self)@ == old(self)@.skip(8),
                Err(e) => old(self)@.len() < 8 && e is EOF && final(self)@ == old(self)@,
            },
    {
        match self.try_get_u64() {
            Ok(v) => {
                proof {
                    assert(v as i64 == i64_of_u64(v)) by (bit_vector);
                }
                Ok(v as i64)
            },
            Err(e) => Err(e),
        }
    }

    /// Copies out the next `len` bytes; fails without consuming anything when
    /// fewer remain.
    pub fn try_copy_to_bytes(&mut self, len: usize) -> (r: Result<Vec<u8>, ReadingError>)
        requires
            old(self).wf(),
        ensures
            final(self).wf(),
            match r {
                Ok(v) => old(self)@.len() >= len && v@ == old(self)@.take(len as int) && final(self)@ == old(self)@.skip(len as int),
                Err(e) => old(self)@.len() < len && e is Message && final(self)@ == old(self)@,
            },
    {
        if self.data.len() - self.pos >= len {
            let mut out: Vec<u8> = Vec::new();
            let mut i: usize = 0;
            while i < len
                invariant
                    self == old(self),
                    self.wf(),
                    i <= len,
                    self.pos + len <= self.data@.len(),
                    self.pos + len <= usize::MAX,
                    out@ == self@.take(i as int),
                decreases len - i,
            {
                let b = self.data[self.pos + i];
                out.push(b);
                i = i + 1;
                proof {
                    assert(out@ =~= self@.take(i as int));
                }
            }
            self.pos = self.pos + len;
            proof {
                assert(final(self)@ =~= old(self)@.skip(len as int));
            }
            Ok(out)
        } else {
            Err(ReadingError::Message("unable to copy bytes".to_owned()))
        }
    }

    /// The bounded form of [`Self::try_copy_to_bytes`]: refuses a request
    /// above `max_size` before reading anything.
    pub fn try_copy_to_bytes_len(&mut self, len: usize, max_size: usize) -> (r: Result<
        Vec<u8>,
        ReadingError,
    >)
        requires
            old(self).wf(),
        ensures
            final(self).wf(),
            match r {
                Ok(v) => len <= max_size && old(self)@.len() >= len && v@ == old(self)@.take(
                    len as int,
                ) && final(self)@ == old(self)@.skip(len as int),
                Err(e) => final(self)@ == old(self)@ && (if len > max_size {
                    e is Message
                } else {
                    old(self)@.len() < len && e is Message
                }),
            },
    {
        if len > max_size {
            return Err(
                ReadingError::Message(
                    "tried to copy bytes, but length exceeds maximum length".to_owned(),
                ),
            );
        }
        self.try_copy_to_bytes(len)
    }
}

/// The wire bytes of a length-prefixed string: its UTF-8 byte count as a
/// VarInt, then those bytes.
pub open spec fn string_encoding(chars: Seq<char>) -> Seq<u8> {
    varint_encoding(encode_utf8(chars).len() as i32) + encode_utf8(chars)
}

/// The wire bytes of several strings written back to back, each
/// length-prefixed.
pub open spec fn strings_bytes(ss: Seq<Seq<char>>) -> Seq<u8>
    decreases ss.len(),
{
    if ss.len() == 0 {
        Seq::empty()
    } else {
        strings_bytes(ss.drop_last()) + string_encoding(ss.last())
    }
}

/// The wire bytes of an optional value: one discriminant byte, then the
/// value's bytes when present.
pub open spec fn option_bytes<G: Encode>(val: Option<G>) -> Seq<u8> {
    match val {
        None => seq![0u8],
        Some(v) => seq![1u8] + v.wire_bytes(),
    }
}

/// The wire bytes of the values of a list, written back to back.
pub open spec fn list_elems_bytes<G: Encode>(s: Seq<G>) -> Seq<u8>
    decreases s.len(),
{
    if s.len() == 0 {
        Seq::empty()
    } else {
        list_elems_bytes(s.drop_last()) + s.last().wire_bytes()
    }
}

/// The wire bytes of a sequence of 32-bit values, each as a VarInt.
pub open spec fn varint_arr_bytes(xs: Seq<i32>) -> Seq<u8>
    decreases xs.len(),
{
    if xs.len() == 0 {
        Seq::empty()
    } else {
        varint_arr_bytes(xs.drop_last()) + varint_encoding(xs.last())
    }
}

/// What reading a length-prefixed string from the front of `s` under the
/// bound `max_size` yields, and what input is left.
pub open spec fn string_read_result(
    s: Seq<u8>,
    max_size: int,
    r: Result<String, ReadingError>,
    fin: Seq<u8>,
) -> bool {
    match r {
        Ok(st) => varint_decodes(s) && 0 <= varint_value(s) <= max_size && ({
            let body = s.skip(varint_len(s));
            let n = varint_value(s) as int;
            body.len() >= n && valid_utf8(body.take(n)) && st@ == decode_utf8(body.take(n)) && fin
                == body.skip(n)
        }),
        Err(e) => match e {
            ReadingError::Incomplete(_) => varint_incomplete(s) && fin == Seq::<u8>::empty(),
            ReadingError::TooLarge(_) => (varint_too_large(s) && fin == s.skip(5)) || (
            varint_decodes(s) && !(0 <= varint_value(s) <= max_size) && fin == s.skip(
                varint_len(s),
            )),
            ReadingError::Message(_) => varint_decodes(s) && 0 <= varint_value(s) <= max_size && ({
                let body = s.skip(varint_len(s));
                let n = varint_value(s) as int;
                (body.len() < n && fin == body) || (body.len() >= n && !valid_utf8(body.take(n))
                    && fin == body.skip(n))
            }),
            ReadingError::EOF(_) => false,
        },
    }
}

/// Relies on `String::from_utf8`: it returns the string decoded from the
/// bytes exactly when they are valid UTF-8, and an error otherwise.
#[verifier::external_body]
fn string_from_utf8(v: Vec<u8>) -> (r: Option<String>)
    ensures
        match r {
            Some(st) => valid_utf8(v@) && st@ == decode_utf8(v@),
            None => !valid_utf8(v@),
        },
{
    match String::from_utf8(v) {
        Ok(st) => Some(st),
        Err(_) => None,
    }
}

impl ByteBuffer {
    /// Appends the VarInt wire bytes of `value`.
    pub fn put_var_int(&mut self, value: &VarInt)
        ensures
            final(self)@ == old(self)@ + varint_encoding(value.0),
    {
        value.encode(self);
    }

    /// Appends a length-prefixed string under the bound `max_size`.
    pub fn put_string_len(&mut self, val: &str, max_size: usize)
        requires
            encode_utf8(val@).len() <= max_size,
            max_size <= 0x7fff_ffff,
        ensures
            final(self)@ == old(self)@ + string_encoding(val@),
    {
        let len = val.len();
        self.put_var_int(&VarInt(len as i32));
        self.put_slice(val.as_bytes());
        proof {
            assert(final(self)@ =~= old(self)@ + string_encoding(val@));
        }
    }

    /// Appends a length-prefixed string under the default 32767-byte bound.
    pub fn put_string(&mut self, val: &str)
        requires
            encode_utf8(val@).len() <= 32767,
        ensures
            final(self)@ == old(self)@ + string_encoding(val@),
    {
        self.put_string_len(val, 32767);
    }

    /// Appends each string in turn, length-prefixed, with no count before
    /// them.
    pub fn put_string_array(&mut self, array: &[&str])
        requires
            forall|i: int| 0 <= i < array@.len() ==> encode_utf8(#[trigger] array@[i]@).len()
                <= 32767,
        ensures
            final(self)@ == old(self)@ + strings_bytes(
                array@.map_values(|s: &str| s@),
            ),
    {
        let ghost views = array@.map_values(|s: &str| s@);
        let n = array.len();
        let mut i: usize = 0;
        while i < n
            invariant
                n == array@.len(),
                views == array@.map_values(|s: &str| s@),
                forall|k: int| 0 <= k < array@.len() ==> encode_utf8(#[trigger] array@[k]@).len()
                    <= 32767,
                i <= n,
                self@ == old(self)@ + strings_bytes(views.take(i as int)),
            decreases n - i,
        {
            self.put_string(array[i]);
            i = i + 1;
            proof {
                assert(views.take(i as int).drop_last() =~= views.take(i - 1));
                assert(views.take(i as int).last() == array@[i - 1]@);
                assert(self@ =~= old(self)@ + strings_bytes(views.take(i as int)));
            }
        }
        proof {
            assert(views.take(n as int) =~= views);
        }
    }

    /// Appends `1` and the value's bytes when it is present, else `0`.
    pub fn put_option<G: Encode>(&mut self, val: &Option<G>)
        requires
            match *val {
                Some(v) => v.encodable(),
                None => true,
            },
        ensures
            final(self)@ == old(self)@ + option_bytes(*val),
    {
        match val {
            Some(v) => {
                self.put_bool(true);
                v.write_to(self);
                proof {
                    assert(final(self)@ =~= old(self)@ + option_bytes(*val));
                }
            },
            None => {
                self.put_bool(false);
                proof {
                    assert(final(self)@ =~= old(self)@ + option_bytes(*val));
                }
            },
        }
    }

    /// Appends a VarInt element count and then each value's bytes in order.
    pub fn put_list<G: Encode>(&mut self, list: &[G])
        requires
            forall|i: int| 0 <= i < list@.len() ==> (#[trigger] list@[i]).encodable(),
            list@.len() <= 0x7fff_ffff,
        ensures
            final(self)@ == old(self)@ + varint_encoding(list@.len() as i32) + list_elems_bytes(
                list@,
            ),
    {
        let n = list.len();
        self.put_var_int(&VarInt(n as i32));
        let mut i: usize = 0;
        while i < n
            invariant
                n == list@.len(),
                forall|k: int| 0 <= k < list@.len() ==> (#[trigger] list@[k]).encodable(),
                i <= n,
                self@ == old(self)@ + varint_encoding(n as i32) + list_elems_bytes(
                    list@.take(i as int),
                ),
            decreases n - i,
        {
            let item = &list[i];
            item.write_to(self);
            i = i + 1;
            proof {
                assert(list@.take(i as int).drop_last() =~= list@.take(i - 1));
                assert(list@.take(i as int).last() == list@[i - 1]);
                assert(self@ =~= old(self)@ + varint_encoding(n as i32) + list_elems_bytes(
                    list@.take(i as int),
                ));
            }
        }
        proof {
            assert(list@.take(n as int) =~= list@);
        }
    }

    /// Appends a VarInt element count and then each value as a VarInt.
    pub fn put_varint_arr(&mut self, v: &[i32])
        requires
            v@.len() <= 0x7fff_ffff,
        ensures
            final(self)@ == old(self)@ + varint_encoding(v@.len() as i32) + varint_arr_bytes(v@),
    {
        let n = v.len();
        self.put_var_int(&VarInt(n as i32));
        let mut i: usize = 0;
        while i < n
            invariant
                n == v@.len(),
                i <= n,
                self@ == old(self)@ + varint_encoding(n as i32) + varint_arr_bytes(
                    v@.take(i as int),
                ),
            decreases n - i,
        {
            self.put_var_int(&VarInt(v[i]));
            i = i + 1;
            proof {
                assert(v@.take(i as int).drop_last() =~= v@.take(i - 1));
                assert(v@.take(i as int).last() == v@[i - 1]);
                assert(self@ =~= old(self)@ + varint_encoding(n as i32) + varint_arr_bytes(
                    v@.take(i as int),
                ));
            }
        }
        proof {
            assert(v@.take(n as int) =~= v@);
        }
    }

    /// Appends the 16 wire bytes of a UUID: its high 64-bit half big-endian,
    /// then its low half.
    pub fn put_uuid(&mut self, v: &Uuid)
        ensures
            final(self)@ == old(self)@ + uuid_bytes(*v),
    {
        self.put_u64(v.most);
        self.put_u64(v.least);
        proof {
            assert(final(self)@ =~= old(self)@ + uuid_bytes(*v));
        }
    }

    /// Appends the wire bytes of a bit set.
    pub fn put_bit_set(&mut self, set: &BitSet)
        requires
            set.words@.len() <= 0x7fff_ffff,
        ensures
            final(self)@ == old(self)@ + bitset_bytes(*set),
    {
        set.encode(self);
    }

    /// Appends the wire bytes of an identifier.
    pub fn put_identifier(&mut self, val: &Identifier)
        requires
            encode_utf8(val.text@).len() <= 32767,
        ensures
            final(self)@ == old(self)@ + string_encoding(val.text@),
    {
        val.encode(self);
    }
}

impl ByteCursor {
    /// Reads a VarInt, naming the failing primitive in the error.
    pub fn try_get_var_int(&mut self) -> (r: Result<VarInt, ReadingError>)
        requires
            old(self).wf(),
        ensures
            final(self).wf(),
            match r {
                Ok(v) => varint_decodes(old(self)@) && v.0 == varint_value(old(self)@) && final(self)@ == old(self)@.skip(varint_len(old(self)@)),
                Err(e) => match e {
                    ReadingError::Incomplete(_) => varint_incomplete(old(self)@) && final(self)@
                        == Seq::<u8>::empty(),
                    ReadingError::TooLarge(_) => varint_too_large(old(self)@) && final(self)@
                        == old(self)@.skip(5),
                    _ => false,
                },
            },
    {
        match VarInt::decode(self) {
            Ok(v) => Ok(v),
            Err(DecodeError::Incomplete) => Err(ReadingError::Incomplete("varint".to_owned())),
            Err(DecodeError::TooLarge) => Err(ReadingError::TooLarge("varint".to_owned())),
        }
    }

    /// Reads a VarLong, naming the failing primitive in the error.
    pub fn try_get_var_long(&mut self) -> (r: Result<VarLong, ReadingError>)
        requires
            old(self).wf(),
        ensures
            final(self).wf(),
            match r {
                Ok(v) => varlong_decodes(old(self)@) && v.0 == varlong_value(old(self)@) && final(self)@ == old(self)@.skip(varlong_len(old(self)@)),
                Err(e) => match e {
                    ReadingError::Incomplete(_) => varlong_incomplete(old(self)@) && final(self)@
                        == Seq::<u8>::empty(),
                    ReadingError::TooLarge(_) => varlong_too_large(old(self)@) && final(self)@
                        == old(self)@.skip(10),
                    _ => false,
                },
            },
    {
        match VarLong::decode(self) {
            Ok(v) => Ok(v),
            Err(DecodeError::Incomplete) => Err(ReadingError::Incomplete("varlong".to_owned())),
            Err(DecodeError::TooLarge) => Err(ReadingError::TooLarge("varlong".to_owned())),
        }
    }

    /// Reads a length-prefixed string under the bound `max_size`.
    ///
    /// The declared length is checked against the bound, and the byte count
    /// actually copied is re-checked, before UTF-8 validation; no
    /// allocation proportional to an out-of-bounds length happens.
    pub fn try_get_string_len(&mut self, max_size: usize) -> (r: Result<String, ReadingError>)
        requires
            old(self).wf(),
            max_size <= 0x7fff_ffff,
        ensures
            final(self).wf(),
            string_read_result(old(self)@, max_size as int, r, final(self)@),
    {
        let size = match self.try_get_var_int() {
            Ok(v) => v,
            Err(e) => {
                return Err(e);
            },
        };
        if size.0 < 0 || size.0 as usize > max_size {
            return Err(ReadingError::TooLarge("string".to_owned()));
        }
        let n = size.0 as usize;
        let data = match self.try_copy_to_bytes(n) {
            Ok(d) => d,
            Err(e) => {
                return Err(e);
            },
        };
        if data.len() > max_size {
            return Err(ReadingError::TooLarge("string".to_owned()));
        }
        match string_from_utf8(data) {
            Some(st) => Ok(st),
            None => Err(ReadingError::Message("string is not valid utf-8".to_owned())),
        }
    }

    /// Reads a length-prefixed string under the default 32767-byte bound.
    pub fn try_get_string(&mut self) -> (r: Result<String, ReadingError>)
        requires
            old(self).wf(),
        ensures
            final(self).wf(),
            string_read_result(old(self)@, 32767, r, final(self)@),
    {
        self.try_get_string_len(32767)
    }

    /// Reads an identifier: a length-prefixed string under the default
    /// bound, kept as the full namespaced name.
    pub fn try_get_identifier(&mut self) -> (r: Result<Identifier, ReadingError>)
        requires
            old(self).wf(),
        ensures
            final(self).wf(),
            string_read_result(
                old(self)@,
                32767,
                match r {
                    Ok(id) => Ok(id.text),
                    Err(e) => Err(e),
                },
                final(self)@,
            ),
    {
        match self.try_get_string_len(32767) {
            Ok(text) => Ok(Identifier { text }),
            Err(e) => Err(e),
        }
    }

    /// Reads a boolean discriminant; when it is set, reads one value and
    /// wraps it. The value reader never runs on the unset path, and its
    /// error comes back unchanged, with the input where that reader left
    /// it.
    pub fn try_get_option<G: Decode>(&mut self) -> (r: Result<Option<G>, ReadingError>)
        requires
            old(self).wf(),
        ensures
            final(self).wf(),
            ({
                let s = old(self)@;
                match r {
                    Ok(opt) => match opt {
                        None => s.len() >= 1 && s[0] == 0 && final(self)@ == s.skip(1),
                        Some(v) => s.len() >= 1 && s[0] != 0 && G::decodes(s.skip(1)) && v
                            == G::decoded_value(s.skip(1)) && final(self)@ == s.skip(1).skip(
                            G::decoded_len(s.skip(1)),
                        ),
                    },
                    Err(e) => (s.len() == 0 && e is EOF && final(self)@ == s) || (s.len() >= 1
                        && s[0] != 0 && !G::decodes(s.skip(1)) && G::decode_failure(
                        s.skip(1),
                        e,
                        final(self)@,
                    )),
                }
            }),
    {
        match self.try_get_bool() {
            Ok(true) => match G::read_from(self) {
                Ok(v) => Ok(Some(v)),
                Err(e) => Err(e),
            },
            Ok(false) => Ok(None),
            Err(e) => Err(e),
        }
    }

    /// Reads a VarInt element count, then that many values in order,
    /// stopping at the first failure: that element's error comes back
    /// unchanged, no partial list is returned, and the input stands where
    /// the failing read left it. Values are collected one at a time: no
    /// allocation is sized from the raw count.
    pub fn get_list<G: Decode>(&mut self) -> (r: Result<Vec<G>, ReadingError>)
        requires
            old(self).wf(),
        ensures
            final(self).wf(),
            ({
                let s = old(self)@;
                let body = s.skip(varint_len(s));
                let c = (varint_value(s) as usize) as int;
                match r {
                    Ok(vs) => varint_decodes(s) && elems_decode::<G>(body, c) && vs@
                        == elems_values::<G>(body, c) && final(self)@ == body.skip(
                        elems_len::<G>(body, c),
                    ),
                    Err(e) => !(varint_decodes(s) && elems_decode::<G>(body, c)) && ((
                    !varint_decodes(s) && (match e {
                        ReadingError::Incomplete(_) => varint_incomplete(s) && final(self)@
                            == Seq::<u8>::empty(),
                        ReadingError::TooLarge(_) => varint_too_large(s) && final(self)@ == s.skip(
                            5,
                        ),
                        _ => false,
                    })) || (varint_decodes(s) && exists|k: int|
                        0 <= k < c && #[trigger] elems_decode::<G>(body, k) && !G::decodes(
                            body.skip(elems_len::<G>(body, k)),
                        ) && G::decode_failure(body.skip(elems_len::<G>(body, k)), e, final(self)@))),
                }
            }),
    {
        let ghost s = self@;
        let size = match self.try_get_var_int() {
            Ok(v) => v,
            Err(e) => {
                proof {
                    if varint_too_large(s) {
                        lemma_term_index_take_none(s, 5);
                    }
                }
                return Err(e);
            },
        };
        let len = #[verifier::truncate] (size.0 as usize);
        let ghost body = self@;
        let mut out: Vec<G> = Vec::new();
        let mut i: usize = 0;
        while i < len
            invariant
                old(self).wf(),
                self.wf(),
                s == old(self)@,
                varint_decodes(s),
                body == s.skip(varint_len(s)),
                len == (varint_value(s) as usize),
                i <= len,
                elems_decode::<G>(body, i as int),
                out@ == elems_values::<G>(body, i as int),
                self@ == body.skip(elems_len::<G>(body, i as int)),
            decreases len - i,
        {
            let ghost consumed = elems_len::<G>(body, i as int);
            let v = match G::read_from(self) {
                Ok(v) => v,
                Err(e) => {
                    proof {
                        lemma_elems_decode_fail::<G>(body, i as int, len as int);
                        assert(elems_decode::<G>(body, i as int) && !G::decodes(
                            body.skip(elems_len::<G>(body, i as int)),
                        ) && G::decode_failure(
                            body.skip(elems_len::<G>(body, i as int)),
                            e,
                            self@,
                        ));
                    }
                    return Err(e);
                },
            };
            proof {
                lemma_elems_len_bounds::<G>(body, i as int);
                G::lemma_decoded_len_bounds(body.skip(consumed));
                lemma_elems_snoc::<G>(body, i as int);
                assert(elems_len::<G>(body, i + 1) == consumed + G::decoded_len(
                    body.skip(consumed),
                ));
                assert(body.skip(consumed).skip(G::decoded_len(body.skip(consumed)))
                    =~= body.skip(elems_len::<G>(body, i + 1)));
            }
            out.push(v);
            i = i + 1;
        }
        Ok(out)
    }

    /// Reads the 16 wire bytes of a UUID; fails without consuming anything
    /// when fewer remain.
    pub fn try_get_uuid(&mut self) -> (r: Result<Uuid, ReadingError>)
        requires
            old(self).wf(),
        ensures
            final(self).wf(),
            match r {
                Ok(u) => old(self)@.len() >= 16 && u == uuid_of_bytes(old(self)@) && final(self)@
                    == old(self)@.skip(16),
                Err(e) => old(self)@.len() < 16 && e is EOF && final(self)@ == old(self)@,
            },
    {
        if self.remaining() < 16 {
            return Err(ReadingError::EOF("uuid".to_owned()));
        }
        let most = match self.try_get_u64() {
            Ok(v) => v,
            Err(e) => {
                return Err(e);
            },
        };
        let least = match self.try_get_u64() {
            Ok(v) => v,
            Err(e) => {
                return Err(e);
            },
        };
        proof {
            assert(forall|j: int| 0 <= j < 8 ==> old(self)@.skip(8)[j] == old(self)@[j + 8]);
            assert(final(self)@ =~= old(self)@.skip(16));
        }
        Ok(Uuid { most, least })
    }

    /// Reads the `ceil(bits / 8)` bytes of a fixed-size bit set.
    pub fn try_get_fixed_bitset(&mut self, bits: usize) -> (r: Result<FixedBitSet, ReadingError>)
        requires
            old(self).wf(),
            bits + 7 <= usize::MAX,
        ensures
            final(self).wf(),
            ({
                let n = (bits + 7) / 8;
                match r {
                    Ok(v) => old(self)@.len() >= n && v@ == old(self)@.take(n as int) && final(self)@ == old(self)@.skip(n as int),
                    Err(e) => old(self)@.len() < n && e is Message && final(self)@ == old(self)@,
                }
            }),
    {
        self.try_copy_to_bytes((bits + 7) / 8)
    }
}

/// Decoding an encoded string, under any bound its bytes fit, yields the
/// same characters and leaves exactly what followed the encoding.
pub proof fn lemma_string_round_trip(chars: Seq<char>, max_size: int, tail: Seq<u8>)
    requires
        encode_utf8(chars).len() <= max_size,
        max_size <= 0x7fff_ffff,
    ensures
        forall|r: Result<String, ReadingError>, fin: Seq<u8>|
            #[trigger] string_read_result(string_encoding(chars) + tail, max_size, r, fin) ==> (
            r matches Ok(st) && st@ == chars && fin == tail),
{
    broadcast use vstd::utf8::encode_utf8_valid_utf8, vstd::utf8::encode_utf8_decode_utf8;

    let eb = encode_utf8(chars);
    let n = eb.len() as i32;
    let s = string_encoding(chars) + tail;
    assert(s =~= varint_encoding(n) + (eb + tail));
    crate::codec::var_int::lemma_varint_round_trip(n, eb + tail);
    assert(varint_value(s) == n);
    let body = s.skip(varint_len(s));
    assert(body =~= eb + tail);
    assert(body.take(n as int) =~= eb);
    assert(body.skip(n as int) =~= tail);
    assert(valid_utf8(eb));
    assert(decode_utf8(eb) == chars);
    assert forall|r: Result<String, ReadingError>, fin: Seq<u8>|
        #[trigger] string_read_result(s, max_size, r, fin) implies (r matches Ok(st) && st@
        == chars && fin == tail) by {
        match r {
            Ok(st) => {},
            Err(e) => {
                match e {
                    ReadingError::Incomplete(_) => {},
                    ReadingError::TooLarge(_) => {
                        if varint_too_large(s) {
                            lemma_term_index_take_none(s, 5);
                        }
                    },
                    ReadingError::Message(_) => {},
                    ReadingError::EOF(_) => {},
                }
            },
        }
    }
}

/// Reading back an encoded optional VarInt, whatever follows it, yields
/// the same value and leaves exactly what followed the encoding.
pub proof fn lemma_option_round_trip(v: Option<VarInt>, tail: Seq<u8>)
    ensures
        ({
            let s = option_bytes(v) + tail;
            s.len() >= 1 && (match v {
                None => s[0] == 0 && s.skip(1) == tail,
                Some(x) => s[0] == 1 && varint_decodes(s.skip(1)) && varint_value(s.skip(1))
                    == x.0 && s.skip(1).skip(varint_len(s.skip(1))) == tail,
            })
        }),
{
    let s = option_bytes(v) + tail;
    match v {
        None => {
            assert(s[0] == 0);
            assert(s.skip(1) =~= tail);
        },
        Some(x) => {
            assert(s[0] == 1);
            assert(s.skip(1) =~= varint_encoding(x.0) + tail);
            crate::codec::var_int::lemma_varint_round_trip(x.0, tail);
            assert(s.skip(1).skip(varint_len(s.skip(1))) =~= tail);
        },
    }
}

/// The bytes of a nonempty VarInt array start with its first element's
/// encoding.
proof fn lemma_varint_arr_bytes_front(xs: Seq<i32>)
    requires
        xs.len() > 0,
    ensures
        varint_arr_bytes(xs) == varint_encoding(xs[0]) + varint_arr_bytes(xs.drop_first()),
    decreases xs.len(),
{
    if xs.len() == 1 {
        assert(xs.drop_last() =~= Seq::<i32>::empty());
        assert(xs.drop_first() =~= Seq::<i32>::empty());
        assert(xs.last() == xs[0]);
        assert(varint_arr_bytes(xs) =~= varint_encoding(xs[0]) + varint_arr_bytes(
            xs.drop_first(),
        ));
    } else {
        let ys = xs.drop_last();
        lemma_varint_arr_bytes_front(ys);
        assert(ys[0] == xs[0]);
        assert(xs.drop_first().drop_last() =~= ys.drop_first());
        assert(xs.drop_first().last() == xs.last());
        assert(varint_arr_bytes(xs.drop_first()) == varint_arr_bytes(ys.drop_first())
            + varint_encoding(xs.last()));
        assert(varint_arr_bytes(xs) =~= varint_encoding(xs[0]) + varint_arr_bytes(
            xs.drop_first(),
        ));
    }
}

/// Reading elements back off an encoded VarInt array, whatever follows it,
/// yields the same values, element for element and in order, consuming
/// exactly the array's bytes.
pub proof fn lemma_varint_arr_round_trip(xs: Seq<i32>, tail: Seq<u8>)
    ensures
        elems_decode::<VarInt>(varint_arr_bytes(xs) + tail, xs.len() as int),
        elems_values::<VarInt>(varint_arr_bytes(xs) + tail, xs.len() as int) == xs.map_values(
            |x: i32| VarInt(x),
        ),
        elems_len::<VarInt>(varint_arr_bytes(xs) + tail, xs.len() as int) == varint_arr_bytes(
            xs,
        ).len(),
    decreases xs.len(),
{
    let s = varint_arr_bytes(xs) + tail;
    let n = xs.len() as int;
    if xs.len() == 0 {
        assert(elems_values::<VarInt>(s, 0) =~= xs.map_values(|x: i32| VarInt(x)));
    } else {
        lemma_varint_arr_bytes_front(xs);
        let rest_bytes = varint_arr_bytes(xs.drop_first());
        assert(s =~= varint_encoding(xs[0]) + (rest_bytes + tail));
        crate::codec::var_int::lemma_varint_round_trip(xs[0], rest_bytes + tail);
        assert(s.skip(varint_len(s)) =~= rest_bytes + tail);
        lemma_varint_arr_round_trip(xs.drop_first(), tail);
        assert(elems_decode::<VarInt>(s, n) == (varint_decodes(s) && elems_decode::<VarInt>(
            s.skip(varint_len(s)),
            n - 1,
        )));
        assert(elems_values::<VarInt>(s, n) == seq![VarInt(varint_value(s))]
            + elems_values::<VarInt>(s.skip(varint_len(s)), n - 1));
        assert(elems_values::<VarInt>(s, n) =~= xs.map_values(|x: i32| VarInt(x))) by {
            assert(xs.drop_first().map_values(|x: i32| VarInt(x)) =~= xs.map_values(
                |x: i32| VarInt(x),
            ).drop_first());
        }
        assert(elems_len::<VarInt>(s, n) == varint_len(s) + elems_len::<VarInt>(
            s.skip(varint_len(s)),
            n - 1,
        ));
    }
}

/// Reading a counted VarInt list back off its encoding, whatever follows
/// it, yields the count and the same values in order, and leaves exactly
/// what followed the encoding.
pub proof fn lemma_varint_list_round_trip(xs: Seq<i32>, tail: Seq<u8>)
    requires
        xs.len() <= 0x7fff_ffff,
    ensures
        ({
            let s = varint_encoding(xs.len() as i32) + varint_arr_bytes(xs) + tail;
            varint_decodes(s) && varint_value(s) == xs.len() && ({
                let body = s.skip(varint_len(s));
                elems_decode::<VarInt>(body, xs.len() as int) && elems_values::<VarInt>(
                    body,
                    xs.len() as int,
                ) == xs.map_values(|x: i32| VarInt(x)) && body.skip(
                    elems_len::<VarInt>(body, xs.len() as int),
                ) == tail
            })
        }),
{
    let s = varint_encoding(xs.len() as i32) + varint_arr_bytes(xs) + tail;
    assert(s =~= varint_encoding(xs.len() as i32) + (varint_arr_bytes(xs) + tail));
    crate::codec::var_int::lemma_varint_round_trip(xs.len() as i32, varint_arr_bytes(xs) + tail);
    let body = s.skip(varint_len(s));
    assert(body =~= varint_arr_bytes(xs) + tail);
    lemma_varint_arr_round_trip(xs, tail);
    assert(body.skip(elems_len::<VarInt>(body, xs.len() as int)) =~= tail);
}

/// A UTF-8 encoding takes at most four bytes per character.
pub proof fn lemma_encode_utf8_len_bound(chars: Seq<char>)
    ensures
        encode_utf8(chars).len() <= 4 * chars.len(),
    decreases chars.len(),
{
    if chars.len() > 0 {
        lemma_encode_utf8_len_bound(chars.drop_first());
        assert(vstd::utf8::encode_scalar(chars[0] as u32).len() <= 4);
    }
}

} // verus!
