//! Variable-size bit sets: a VarInt word count followed by that many
//! 64-bit big-endian words.

use vstd::prelude::*;

use crate::bytebuf::{u64_be_bytes, u64_of_i64, ByteBuffer};
use crate::codec::var_int::{varint_encoding, VarInt};
use crate::codec::Encode;

verus! {

/// A bit set as the sequence of 64-bit words that back it.
#[derive(Debug, Clone)]
pub struct BitSet {
    pub words: Vec<i64>,
}

/// The wire bytes of a word sequence: each word's 64-bit pattern,
/// big-endian, in order.
pub open spec fn bitset_words_bytes(ws: Seq<i64>) -> Seq<u8>
    decreases ws.len(),
{
    if ws.len() == 0 {
        Seq::empty()
    } else {
        bitset_words_bytes(ws.drop_last()) + u64_be_bytes(u64_of_i64(ws.last()))
    }
}

/// The wire bytes of a bit set: its word count as a VarInt, then its words.
pub open spec fn bitset_bytes(b: BitSet) -> Seq<u8> {
    varint_encoding(b.words@.len() as i32) + bitset_words_bytes(b.words@)
}

impl BitSet {
    /// A bit set over the given words.
    pub fn new(words: Vec<i64>) -> (r: BitSet)
        ensures
            r.words == words,
    {
        BitSet { words }
    }

    /// Appends the wire bytes of this bit set to `buf`.
    pub fn encode(&self, buf: &mut ByteBuffer)
        requires
            self.words@.len() <= 0x7fff_ffff,
        ensures
            final(buf)@ == old(buf)@ + bitset_bytes(*self),
    {
        let n = self.words.len();
        let count = VarInt(n as i32);
        count.encode(buf);
        let mut i: usize = 0;
        while i < n
            invariant
                n == self.words@.len(),
                i <= n,
                buf@ == old(buf)@ + varint_encoding(n as i32) + bitset_words_bytes(
                    self.words@.take(i as int),
                ),
            decreases n - i,
        {
            buf.put_i64(self.words[i]);
            i = i + 1;
            proof {
                assert(self.words@.take(i as int).drop_last() =~= self.words@.take(i - 1));
                assert(self.words@.take(i as int).last() == self.words@[i - 1]);
            }
        }
        proof {
            assert(self.words@.take(n as int) =~= self.words@);
        }
    }
}

impl Encode for BitSet {
    open spec fn encodable(&self) -> bool {
        self.words@.len() <= 0x7fff_ffff
    }

    open spec fn wire_bytes(&self) -> Seq<u8> {
        bitset_bytes(*self)
    }

    fn write_to(&self, buf: &mut ByteBuffer) {
        self.encode(buf);
    }
}

} // verus!
