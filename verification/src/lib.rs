//! Binary wire-protocol codec for a multiplayer game server.
//!
//! The crate turns typed in-memory structures into a length- and type-exact
//! byte stream and parses such streams back: variable-length integers,
//! length-prefixed strings, UUIDs, bit sets, option/list combinators, a
//! field-by-field structured encoder, and the command-graph packet whose
//! layout depends on runtime data.

pub mod boat;
pub mod bytebuf;
pub mod codec;
pub mod commands;
pub mod generator;
pub mod serializer;
pub mod server;
pub mod server_links;

pub use bytebuf::ByteBuffer;
pub use bytebuf::ByteCursor;
pub use bytebuf::FixedBitSet;
pub use bytebuf::ReadingError;
pub use codec::bit_set::BitSet;
pub use codec::identifier::Identifier;
pub use codec::uuid::Uuid;
pub use codec::var_int::VarInt;
pub use codec::var_long::VarLong;
pub use server_links::Link;
