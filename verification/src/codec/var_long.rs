//! Variable-length 64-bit integers: at most ten bytes on the wire.

use vstd::prelude::*;

use crate::bytebuf::{i64_of_u64, u64_of_i64, ByteBuffer, ByteCursor, ReadingError};
use crate::codec::{
    base128_encoding, base128_value, lemma_base128_encoding_len, lemma_base128_encoding_props,
    lemma_base128_value_bound, lemma_base128_value_snoc, lemma_pow128_pos,
    lemma_term_index_all_continuation, lemma_term_index_first, lemma_term_index_props, pow128,
    term_index, DecodeError,
};

verus! {

/// A signed 64-bit integer carried as a little-endian base-128
/// continuation sequence of at most ten bytes.
#[derive(Debug, Clone, Copy, PartialEq, Eq, Structural)]
pub struct VarLong(pub i64);

/// The wire bytes of `x`: its 64-bit pattern in base-128 continuation form.
pub open spec fn varlong_encoding(x: i64) -> Seq<u8> {
    base128_encoding(u64_of_i64(x) as nat)
}

/// `s` starts with a complete VarLong: a terminating byte within the first
/// ten.
pub open spec fn varlong_decodes(s: Seq<u8>) -> bool {
    0 <= term_index(s) < 10
}

/// How many bytes the VarLong at the front of `s` occupies.
pub open spec fn varlong_len(s: Seq<u8>) -> int {
    term_index(s) + 1
}

/// The value of the VarLong at the front of `s`: the payload bits of its
/// digits, truncated to 64 bits and reinterpreted as signed.
pub open spec fn varlong_value(s: Seq<u8>) -> i64 {
    i64_of_u64((base128_value(s.take(varlong_len(s))) % 0x1_0000_0000_0000_0000) as u64)
}

/// Ten bytes were available and all carried the continuation bit.
pub open spec fn varlong_too_large(s: Seq<u8>) -> bool {
    s.len() >= 10 && term_index(s.take(10)) == -1
}

/// The input ran out before a terminating byte, within the ten-byte limit.
pub open spec fn varlong_incomplete(s: Seq<u8>) -> bool {
    s.len() < 10 && term_index(s) == -1
}

impl VarLong {
    /// Appends the wire bytes of this value to `buf`.
    pub fn encode(&self, buf: &mut ByteBuffer)
        ensures
            final(buf)@ == old(buf)@ + varlong_encoding(self.0),
    {
        let v: i64 = self.0;
        let mut n: u64 = v as u64;
        proof {
            assert(v as u64 == u64_of_i64(v)) by (bit_vector);
        }
        while n >= 128
            invariant
                buf@ + base128_encoding(n as nat) == old(buf)@ + varlong_encoding(self.0),
            decreases n,
        {
            let ghost pre = buf@;
            buf.put_u8(((n % 128) + 128) as u8);
            proof {
                assert(base128_encoding(n as nat) == seq![(((n as nat) % 128) + 128) as u8]
                    + base128_encoding((n as nat) / 128));
                assert(buf@ + base128_encoding(((n as nat) / 128)) =~= pre + base128_encoding(
                    n as nat,
                ));
            }
            n = n / 128;
        }
        let ghost pre = buf@;
        buf.put_u8(n as u8);
        proof {
            assert(base128_encoding(n as nat) == seq![n as u8]);
            assert(buf@ =~= pre + base128_encoding(n as nat));
        }
    }

    /// Reads a VarLong from the front of `cur`.
    ///
    /// Fails with [`DecodeError::Incomplete`] when the input ends before a
    /// terminating byte, and with [`DecodeError::TooLarge`] when ten bytes
    /// carry the continuation bit, consuming exactly the bytes it read.
    #[verifier::rlimit(30)]
    pub fn decode(cur: &mut ByteCursor) -> (r: Result<VarLong, DecodeError>)
        requires
            old(cur).wf(),
        ensures
            final(cur).wf(),
            match r {
                Ok(v) => varlong_decodes(old(cur)@) && v.0 == varlong_value(old(cur)@) && final(cur)@ == old(cur)@.skip(varlong_len(old(cur)@)),
                Err(e) => match e {
                    DecodeError::Incomplete => varlong_incomplete(old(cur)@) && final(cur)@
                        == Seq::<u8>::empty(),
                    DecodeError::TooLarge => varlong_too_large(old(cur)@) && final(cur)@ == old(cur)@.skip(10),
                },
            },
    {
        let ghost s = cur@;
        let mut val: u128 = 0;
        let mut mult: u128 = 1;
        let mut i: usize = 0;
        loop
            invariant
                s == old(cur)@,
                old(cur).wf(),
                cur.wf(),
                i <= 9,
                cur@ == s.skip(i as int),
                i <= s.len(),
                mult == pow128(i as nat),
                mult <= 0x8000_0000_0000_0000,
                0 <= val < mult,
                val == base128_value(s.take(i as int)),
                forall|j: int| 0 <= j < i ==> s[j] >= 128,
            decreases 10 - i,
        {
            let b = match cur.try_get_u8() {
                Ok(b) => b,
                Err(_) => {
                    proof {
                        assert(s.skip(i as int).len() == 0);
                        assert(s.len() == i);
                        assert(s.take(i as int) =~= s);
                        lemma_term_index_all_continuation(s);
                        assert(cur@ =~= Seq::<u8>::empty());
                    }
                    return Err(DecodeError::Incomplete);
                },
            };
            proof {
                assert(b == s[i as int]);
                assert(cur@ =~= s.skip(i + 1));
                assert(s.take(i as int).push(b) =~= s.take(i + 1));
                lemma_base128_value_snoc(s.take(i as int), b);
                assert(s.take(i as int).len() == i);
                lemma_base128_value_bound(s.take(i + 1));
            }
            let chunk: u128 = (b % 128) as u128;
            proof {
                assert(chunk * mult <= 127 * mult) by (nonlinear_arith)
                    requires
                        chunk <= 127,
                        mult >= 1,
                ;
                assert(val + 127 * mult < 128 * mult) by (nonlinear_arith)
                    requires
                        val < mult,
                        mult >= 1,
                ;
                assert(128 * mult <= 0x40_0000_0000_0000_0000) by (nonlinear_arith)
                    requires
                        mult <= 0x8000_0000_0000_0000,
                ;
                lemma_pow128_pos(i as nat);
            }
            val = val + chunk * mult;
            i = i + 1;
            if b < 128 {
                proof {
                    lemma_term_index_first(s, i - 1);
                    assert(varlong_len(s) == i);
                    lemma_base128_value_bound(s.take(i as int));
                }
                let m: u64 = (val % 0x1_0000_0000_0000_0000) as u64;
                let out: i64 = m as i64;
                proof {
                    assert(m as i64 == i64_of_u64(m)) by (bit_vector);
                }
                return Ok(VarLong(out));
            }
            if i == 10 {
                proof {
                    assert(forall|j: int| 0 <= j < 10 ==> s[j] >= 128);
                    assert(s.take(10int).len() == 10);
                    assert(forall|j: int| 0 <= j < 10 ==> s.take(10int)[j] == s[j]);
                    lemma_term_index_all_continuation(s.take(10int));
                    assert(cur@ =~= s.skip(10));
                }
                return Err(DecodeError::TooLarge);
            }
            mult = if i == 1 {
                128
            } else if i == 2 {
                16384
            } else if i == 3 {
                2097152
            } else if i == 4 {
                268435456
            } else if i == 5 {
                34359738368
            } else if i == 6 {
                4398046511104
            } else if i == 7 {
                562949953421312
            } else if i == 8 {
                72057594037927936
            } else {
                9223372036854775808
            };
            proof {
                assert(pow128(0) == 1);
                assert(pow128(1) == 128);
                assert(pow128(2) == 16384);
                assert(pow128(3) == 2097152);
                assert(pow128(4) == 268435456);
                assert(pow128(5) == 34359738368);
                assert(pow128(6) == 4398046511104);
                assert(pow128(7) == 562949953421312);
                assert(pow128(8) == 72057594037927936);
                assert(pow128(9) == 9223372036854775808);
            }
        }
    }
}

/// Decoding the encoding of any 64-bit value, whatever follows it, yields
/// that value back and consumes exactly the encoding.
pub proof fn lemma_varlong_round_trip(x: i64, tail: Seq<u8>)
    ensures
        varlong_encoding(x).len() <= 10,
        varlong_decodes(varlong_encoding(x) + tail),
        varlong_len(varlong_encoding(x) + tail) == varlong_encoding(x).len(),
        varlong_value(varlong_encoding(x) + tail) == x,
{
    let n = u64_of_i64(x) as nat;
    let enc = base128_encoding(n);
    let s = enc + tail;
    lemma_base128_encoding_props(n);
    assert(pow128(0) == 1);
    assert(pow128(1) == 128);
    assert(pow128(2) == 16384);
    assert(pow128(3) == 2097152);
    assert(pow128(4) == 268435456);
    assert(pow128(5) == 34359738368);
    assert(pow128(6) == 4398046511104);
    assert(pow128(7) == 562949953421312);
    assert(pow128(8) == 72057594037927936);
    assert(pow128(9) == 9223372036854775808);
    assert(pow128(10) == 0x40_0000_0000_0000_0000);
    lemma_base128_encoding_len(n, 10);
    assert(forall|j: int| 0 <= j < enc.len() ==> s[j] == enc[j]);
    lemma_term_index_first(s, enc.len() - 1);
    assert(s.take(enc.len() as int) =~= enc);
    assert(base128_value(s.take(varlong_len(s))) == n);
    assert(n < 0x1_0000_0000_0000_0000);
    assert(i64_of_u64(u64_of_i64(x)) == x) by (bit_vector);
}

impl crate::codec::Encode for VarLong {
    open spec fn encodable(&self) -> bool {
        true
    }

    open spec fn wire_bytes(&self) -> Seq<u8> {
        varlong_encoding(self.0)
    }

    fn write_to(&self, buf: &mut ByteBuffer) {
        self.encode(buf);
    }
}

impl crate::codec::Decode for VarLong {
    open spec fn decodes(s: Seq<u8>) -> bool {
        varlong_decodes(s)
    }

    open spec fn decoded_len(s: Seq<u8>) -> int {
        varlong_len(s)
    }

    open spec fn decoded_value(s: Seq<u8>) -> Self {
        VarLong(varlong_value(s))
    }

    open spec fn decode_failure(s: Seq<u8>, e: ReadingError, fin: Seq<u8>) -> bool {
        match e {
            ReadingError::Incomplete(_) => varlong_incomplete(s) && fin == Seq::<u8>::empty(),
            ReadingError::TooLarge(_) => varlong_too_large(s) && fin == s.skip(10),
            _ => false,
        }
    }

    proof fn lemma_decoded_len_bounds(s: Seq<u8>) {
        lemma_term_index_props(s);
    }

    fn read_from(cur: &mut ByteCursor) -> (r: Result<Self, ReadingError>) {
        let ghost s = cur@;
        match Self::decode(cur) {
            Ok(v) => Ok(v),
            Err(DecodeError::Incomplete) => Err(ReadingError::Incomplete("varlong".to_owned())),
            Err(DecodeError::TooLarge) => {
                proof {
                    crate::codec::lemma_term_index_take_none(s, 10);
                }
                Err(ReadingError::TooLarge("varlong".to_owned()))
            },
        }
    }
}

} // verus!
