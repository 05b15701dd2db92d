//! UUIDs on the wire: two consecutive 64-bit big-endian halves, 16 bytes.

use vstd::prelude::*;

use crate::bytebuf::{u64_be_bytes, u64_of_be, ByteBuffer, ByteCursor, ReadingError};
use crate::codec::{Decode, Encode};

verus! {

/// A UUID as its canonical pair of 64-bit halves, most significant first.
#[derive(Debug, Clone, Copy, PartialEq, Eq, Hash, Structural)]
pub struct Uuid {
    pub most: u64,
    pub least: u64,
}

/// The 16 wire bytes of a UUID: the big-endian high half, then the
/// big-endian low half.
pub open spec fn uuid_bytes(u: Uuid) -> Seq<u8> {
    u64_be_bytes(u.most) + u64_be_bytes(u.least)
}

/// The UUID at the front of `s`, which must hold at least 16 bytes.
pub open spec fn uuid_of_bytes(s: Seq<u8>) -> Uuid {
    Uuid {
        most: u64_of_be(s[0], s[1], s[2], s[3], s[4], s[5], s[6], s[7]),
        least: u64_of_be(s[8], s[9], s[10], s[11], s[12], s[13], s[14], s[15]),
    }
}

impl Uuid {
    /// A UUID from its two 64-bit halves, most significant first.
    pub fn from_u64_pair(most: u64, least: u64) -> (r: Uuid)
        ensures
            r == (Uuid { most, least }),
    {
        Uuid { most, least }
    }

    /// The two 64-bit halves, most significant first.
    pub fn as_u64_pair(&self) -> (r: (u64, u64))
        ensures
            r.0 == self.most,
            r.1 == self.least,
    {
        (self.most, self.least)
    }
}

impl Encode for Uuid {
    open spec fn encodable(&self) -> bool {
        true
    }

    open spec fn wire_bytes(&self) -> Seq<u8> {
        uuid_bytes(*self)
    }

    fn write_to(&self, buf: &mut ByteBuffer) {
        buf.put_uuid(self);
    }
}

impl Decode for Uuid {
    open spec fn decodes(s: Seq<u8>) -> bool {
        s.len() >= 16
    }

    open spec fn decoded_len(s: Seq<u8>) -> int {
        16
    }

    open spec fn decoded_value(s: Seq<u8>) -> Self {
        uuid_of_bytes(s)
    }

    open spec fn decode_failure(s: Seq<u8>, e: ReadingError, fin: Seq<u8>) -> bool {
        e is EOF && s.len() < 16 && fin == s
    }

    proof fn lemma_decoded_len_bounds(s: Seq<u8>) {
    }

    fn read_from(cur: &mut ByteCursor) -> (r: Result<Self, ReadingError>) {
        cur.try_get_uuid()
    }
}

/// Reading back the 16 wire bytes of a UUID, whatever follows them, yields
/// the same UUID.
pub proof fn lemma_uuid_round_trip(u: Uuid, tail: Seq<u8>)
    ensures
        uuid_bytes(u).len() == 16,
        uuid_of_bytes(uuid_bytes(u) + tail) == u,
{
    crate::bytebuf::lemma_u64_be_round_trip(u.most);
    crate::bytebuf::lemma_u64_be_round_trip(u.least);
    let s = uuid_bytes(u) + tail;
    assert(forall|j: int| 0 <= j < 8 ==> s[j] == u64_be_bytes(u.most)[j]);
    assert(forall|j: int| 8 <= j < 16 ==> s[j] == u64_be_bytes(u.least)[j - 8]);
}

} // verus!
