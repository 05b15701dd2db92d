//! The server-links packet sent during configuration: labelled URLs the
//! client may show.

use vstd::prelude::*;
use vstd::utf8::encode_utf8;

use crate::bytebuf::{list_elems_bytes, string_encoding, ByteBuffer};
use crate::codec::var_int::{varint_encoding, VarInt};
use crate::codec::Encode;

verus! {

/// A link's label: either a built-in kind named by its wire identifier, or
/// free text.
#[derive(Debug, Clone)]
pub enum LinkLabel {
    BuiltIn(VarInt),
    Custom(String),
}

/// One server link: its label and its URL.
#[derive(Debug, Clone)]
pub struct Link {
    pub label: LinkLabel,
    pub url: String,
}

/// The wire bytes of a link label: a discriminant byte (`1` built-in, `0`
/// custom), then the identifier VarInt or the text.
pub open spec fn link_label_bytes(l: LinkLabel) -> Seq<u8> {
    match l {
        LinkLabel::BuiltIn(v) => seq![1u8] + varint_encoding(v.0),
        LinkLabel::Custom(text) => seq![0u8] + string_encoding(text@),
    }
}

/// The wire bytes of a link: its label, then its URL string.
pub open spec fn link_bytes(l: Link) -> Seq<u8> {
    link_label_bytes(l.label) + string_encoding(l.url@)
}

impl Link {
    /// Whether the link's strings fit the default bound.
    pub open spec fn wf(&self) -> bool {
        encode_utf8(self.url@).len() <= 32767 && (match self.label {
            LinkLabel::Custom(text) => encode_utf8(text@).len() <= 32767,
            LinkLabel::BuiltIn(_) => true,
        })
    }
}

impl Encode for Link {
    open spec fn encodable(&self) -> bool {
        self.wf()
    }

    open spec fn wire_bytes(&self) -> Seq<u8> {
        link_bytes(*self)
    }

    fn write_to(&self, buf: &mut ByteBuffer) {
        match &self.label {
            LinkLabel::BuiltIn(v) => {
                buf.put_bool(true);
                buf.put_var_int(v);
            },
            LinkLabel::Custom(text) => {
                buf.put_bool(false);
                buf.put_string(text.as_str());
            },
        }
        buf.put_string(self.url.as_str());
        proof {
            assert(final(buf)@ =~= old(buf)@ + link_bytes(*self));
        }
    }
}

/// The server-links packet: a link count of its own, then the links as a
/// counted list.
pub struct CConfigServerLinks {
    pub links_count: VarInt,
    pub links: Vec<Link>,
}

/// The wire bytes of the packet: the count field as a VarInt, then the
/// list's own VarInt length prefix and each link in order.
pub open spec fn server_links_bytes(c: CConfigServerLinks) -> Seq<u8> {
    varint_encoding(c.links_count.0) + varint_encoding(c.links@.len() as i32) + list_elems_bytes(
        c.links@,
    )
}

impl CConfigServerLinks {
    /// A server-links packet over the given count and links.
    pub fn new(links_count: VarInt, links: Vec<Link>) -> (r: CConfigServerLinks)
        ensures
            r.links_count == links_count,
            r.links == links,
    {
        CConfigServerLinks { links_count, links }
    }

    /// Writes the packet payload: count field, then the counted link list.
    pub fn write(&self, buf: &mut ByteBuffer)
        requires
            self.links@.len() <= 0x7fff_ffff,
            forall|i: int| 0 <= i < self.links@.len() ==> (#[trigger] self.links@[i]).wf(),
        ensures
            final(buf)@ == old(buf)@ + server_links_bytes(*self),
    {
        buf.put_var_int(&self.links_count);
        buf.put_list(self.links.as_slice());
        proof {
            assert(final(buf)@ =~= old(buf)@ + server_links_bytes(*self));
        }
    }
}

} // verus!
