//! Variable-length 32-bit integers: at most five bytes on the wire.

use vstd::prelude::*;

use crate::bytebuf::{i32_of_u32, u32_of_i32, ByteBuffer, ByteCursor, ReadingError};
use crate::codec::{
    base128_encoding, base128_value, lemma_base128_encoding_len, lemma_base128_encoding_props,
    lemma_base128_value_bound, lemma_base128_value_snoc, lemma_pow128_pos,
    lemma_term_index_all_continuation, lemma_term_index_first, lemma_term_index_props, pow128,
    term_index, DecodeError,
};

verus! {

/// A signed 32-bit integer carried as a little-endian base-128
/// continuation sequence of at most five bytes.
#[derive(Debug, Clone, Copy, PartialEq, Eq, Structural)]
pub struct VarInt(pub i32);

/// The wire bytes of `x`: its 32-bit pattern in base-128 continuation form.
pub open spec fn varint_encoding(x: i32) -> Seq<u8> {
    base128_encoding(u32_of_i32(x) as nat)
}

/// `s` starts with a complete VarInt: a terminating byte within the first
/// five.
pub open spec fn varint_decodes(s: Seq<u8>) -> bool {
    0 <= term_index(s) < 5
}

/// How many bytes the VarInt at the front of `s` occupies.
pub open spec fn varint_len(s: Seq<u8>) -> int {
    term_index(s) + 1
}

/// The value of the VarInt at the front of `s`: the payload bits of its
/// digits, truncated to 32 bits and reinterpreted as signed.
pub open spec fn varint_value(s: Seq<u8>) -> i32 {
    i32_of_u32((base128_value(s.take(varint_len(s))) % 0x1_0000_0000) as u32)
}

/// Five bytes were available and all carried the continuation bit.
pub open spec fn varint_too_large(s: Seq<u8>) -> bool {
    s.len() >= 5 && term_index(s.take(5)) == -1
}

/// The input ran out before a terminating byte, within the five-byte limit.
pub open spec fn varint_incomplete(s: Seq<u8>) -> bool {
    s.len() < 5 && term_index(s) == -1
}

impl VarInt {
    /// Appends the wire bytes of this value to `buf`.
    pub fn encode(&self, buf: &mut ByteBuffer)
        ensures
            final(buf)@ == old(buf)@ + varint_encoding(self.0),
    {
        let v: i32 = self.0;
        let mut n: u32 = v as u32;
        proof {
            assert(v as u32 == u32_of_i32(v)) by (bit_vector);
        }
        while n >= 128
            invariant
                buf@ + base128_encoding(n as nat) == old(buf)@ + varint_encoding(self.0),
            decreases n,
        {
            let ghost pre = buf@;
            buf.put_u8(((n % 128) + 128) as u8);
            proof {
                assert(base128_encoding(n as nat) == seq![(((n as nat) % 128) + 128) as u8]
                    + base128_encoding((n as nat) / 128));
                assert(buf@ + base128_encoding(((n as nat) / 128)) =~= pre + base128_encoding(
                    n as nat,
                ));
            }
            n = n / 128;
        }
        let ghost pre = buf@;
        buf.put_u8(n as u8);
        proof {
            assert(base128_encoding(n as nat) == seq![n as u8]);
            assert(buf@ =~= pre + base128_encoding(n as nat));
        }
    }

    /// Reads a VarInt from the front of `cur`.
    ///
    /// Fails with [`DecodeError::Incomplete`] when the input ends before a
    /// terminating byte, and with [`DecodeError::TooLarge`] when five bytes
    /// carry the continuation bit, consuming exactly the bytes it read.
    #[verifier::rlimit(30)]
    pub fn decode(cur: &mut ByteCursor) -> (r: Result<VarInt, DecodeError>)
        requires
            old(cur).wf(),
        ensures
            final(cur).wf(),
            match r {
                Ok(v) => varint_decodes(old(cur)@) && v.0 == varint_value(old(cur)@) && final(cur)@ == old(cur)@.skip(varint_len(old(cur)@)),
                Err(e) => match e {
                    DecodeError::Incomplete => varint_incomplete(old(cur)@) && final(cur)@
                        == Seq::<u8>::empty(),
                    DecodeError::TooLarge => varint_too_large(old(cur)@) && final(cur)@ == old(cur)@.skip(5),
                },
            },
    {
        let ghost s = cur@;
        let mut val: u64 = 0;
        let mut mult: u64 = 1;
        let mut i: usize = 0;
        loop
            invariant
                s == old(cur)@,
                old(cur).wf(),
                cur.wf(),
                i <= 4,
                cur@ == s.skip(i as int),
                i <= s.len(),
                mult == pow128(i as nat),
                mult <= 0x10000000,
                0 <= val < mult,
                val == base128_value(s.take(i as int)),
                forall|j: int| 0 <= j < i ==> s[j] >= 128,
            decreases 5 - i,
        {
            let b = match cur.try_get_u8() {
                Ok(b) => b,
                Err(_) => {
                    proof {
                        assert(s.skip(i as int).len() == 0);
                        assert(s.len() == i);
                        assert(s.take(i as int) =~= s);
                        lemma_term_index_all_continuation(s);
                        assert(cur@ =~= Seq::<u8>::empty());
                    }
                    return Err(DecodeError::Incomplete);
                },
            };
            proof {
                assert(b == s[i as int]);
                assert(cur@ =~= s.skip(i + 1));
                assert(s.take(i as int).push(b) =~= s.take(i + 1));
                lemma_base128_value_snoc(s.take(i as int), b);
                assert(s.take(i as int).len() == i);
                lemma_base128_value_bound(s.take(i + 1));
            }
            let chunk: u64 = (b % 128) as u64;
            proof {
                assert(chunk * mult <= 127 * mult) by (nonlinear_arith)
                    requires
                        chunk <= 127,
                        mult >= 1,
                ;
                assert(val + 127 * mult < 128 * mult) by (nonlinear_arith)
                    requires
                        val < mult,
                        mult >= 1,
                ;
                assert(128 * mult <= 0x800000000) by (nonlinear_arith)
                    requires
                        mult <= 0x10000000,
                ;
                lemma_pow128_pos(i as nat);
            }
            val = val + chunk * mult;
            i = i + 1;
            if b < 128 {
                proof {
                    lemma_term_index_first(s, i - 1);
                    assert(varint_len(s) == i);
                    lemma_base128_value_bound(s.take(i as int));
                }
                let m: u32 = (val % 0x1_0000_0000) as u32;
                let out: i32 = m as i32;
                proof {
                    assert(m as i32 == i32_of_u32(m)) by (bit_vector);
                }
                return Ok(VarInt(out));
            }
            if i == 5 {
                proof {
                    assert(forall|j: int| 0 <= j < 5 ==> s[j] >= 128);
                    assert(s.take(5int).len() == 5);
                    assert(forall|j: int| 0 <= j < 5 ==> s.take(5int)[j] == s[j]);
                    lemma_term_index_all_continuation(s.take(5int));
                    assert(cur@ =~= s.skip(5));
                }
                return Err(DecodeError::TooLarge);
            }
            mult = if i == 1 {
                128
            } else if i == 2 {
                16384
            } else if i == 3 {
                2097152
            } else {
                268435456
            };
            proof {
                assert(pow128(0) == 1);
                assert(pow128(1) == 128);
                assert(pow128(2) == 16384);
                assert(pow128(3) == 2097152);
                assert(pow128(4) == 268435456);
            }
        }
    }
}

/// Decoding the encoding of any 32-bit value, whatever follows it, yields
/// that value back and consumes exactly the encoding.
pub proof fn lemma_varint_round_trip(x: i32, tail: Seq<u8>)
    ensures
        varint_encoding(x).len() <= 5,
        varint_decodes(varint_encoding(x) + tail),
        varint_len(varint_encoding(x) + tail) == varint_encoding(x).len(),
        varint_value(varint_encoding(x) + tail) == x,
{
    let n = u32_of_i32(x) as nat;
    let enc = base128_encoding(n);
    let s = enc + tail;
    lemma_base128_encoding_props(n);
    assert(pow128(0) == 1);
    assert(pow128(1) == 128);
    assert(pow128(2) == 16384);
    assert(pow128(3) == 2097152);
    assert(pow128(4) == 268435456);
    assert(pow128(5) == 0x8_0000_0000);
    lemma_base128_encoding_len(n, 5);
    assert(forall|j: int| 0 <= j < enc.len() ==> s[j] == enc[j]);
    lemma_term_index_first(s, enc.len() - 1);
    assert(s.take(enc.len() as int) =~= enc);
    assert(base128_value(s.take(varint_len(s))) == n);
    assert(n < 0x1_0000_0000);
    assert(i32_of_u32(u32_of_i32(x)) == x) by (bit_vector);
}

impl crate::codec::Encode for VarInt {
    open spec fn encodable(&self) -> bool {
        true
    }

    open spec fn wire_bytes(&self) -> Seq<u8> {
        varint_encoding(self.0)
    }

    fn write_to(&self, buf: &mut ByteBuffer) {
        self.encode(buf);
    }
}

impl crate::codec::Decode for VarInt {
    open spec fn decodes(s: Seq<u8>) -> bool {
        varint_decodes(s)
    }

    open spec fn decoded_len(s: Seq<u8>) -> int {
        varint_len(s)
    }

    open spec fn decoded_value(s: Seq<u8>) -> Self {
        VarInt(varint_value(s))
    }

    open spec fn decode_failure(s: Seq<u8>, e: ReadingError, fin: Seq<u8>) -> bool {
        match e {
            ReadingError::Incomplete(_) => varint_incomplete(s) && fin == Seq::<u8>::empty(),
            ReadingError::TooLarge(_) => varint_too_large(s) && fin == s.skip(5),
            _ => false,
        }
    }

    proof fn lemma_decoded_len_bounds(s: Seq<u8>) {
        lemma_term_index_props(s);
    }

    fn read_from(cur: &mut ByteCursor) -> (r: Result<Self, ReadingError>) {
        let ghost s = cur@;
        match Self::decode(cur) {
            Ok(v) => Ok(v),
            Err(DecodeError::Incomplete) => Err(ReadingError::Incomplete("varint".to_owned())),
            Err(DecodeError::TooLarge) => {
                proof {
                    crate::codec::lemma_term_index_take_none(s, 5);
                }
                Err(ReadingError::TooLarge("varint".to_owned()))
            },
        }
    }
}

} // verus!
