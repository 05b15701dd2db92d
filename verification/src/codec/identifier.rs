//! Namespaced names (`namespace:path`), carried on the wire as a
//! length-prefixed string under the default string bound.

use vstd::prelude::*;
use vstd::utf8::encode_utf8;

use crate::bytebuf::{string_encoding, ByteBuffer};
use crate::codec::Encode;

verus! {

/// A namespaced name, held as its full `namespace:path` text.
#[derive(Debug, Clone)]
pub struct Identifier {
    pub text: String,
}

impl Identifier {
    /// An identifier from its full text.
    pub fn new(text: String) -> (r: Identifier)
        ensures
            r.text == text,
    {
        Identifier { text }
    }

    /// Appends the wire bytes of this identifier to `buf`: its text as a
    /// length-prefixed string.
    pub fn encode(&self, buf: &mut ByteBuffer)
        requires
            encode_utf8(self.text@).len() <= 32767,
        ensures
            final(buf)@ == old(buf)@ + string_encoding(self.text@),
    {
        buf.put_string(self.text.as_str());
    }
}

impl Encode for Identifier {
    open spec fn encodable(&self) -> bool {
        encode_utf8(self.text@).len() <= 32767
    }

    open spec fn wire_bytes(&self) -> Seq<u8> {
        string_encoding(self.text@)
    }

    fn write_to(&self, buf: &mut ByteBuffer) {
        self.encode(buf);
    }
}

} // verus!
