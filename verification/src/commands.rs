//! The command-graph packet: a flattened tree of command nodes, each with a
//! flag byte, child indices, and per-kind conditional fields.
//!
//! The flag byte keeps the format compact: low two bits select the node
//! kind (root, literal, argument), bit 2 marks an executable node, bit 3 a
//! redirect and bit 4 a suggestion-provider override. The redirect target
//! is an explicit input: the bit is set, and a target index written,
//! exactly when the node carries one.

use vstd::prelude::*;
use vstd::utf8::encode_utf8;

use crate::bytebuf::{
    list_elems_bytes, string_encoding, u32_be_bytes, u32_of_i32, u64_be_bytes, u64_of_i64,
    ByteBuffer,
};
use crate::codec::var_int::{varint_encoding, VarInt};
use crate::codec::Encode;

verus! {

/// The executable-node marker in a command node's flag byte.
pub const FLAG_IS_EXECUTABLE: u8 = 4;

/// The redirect marker in a command node's flag byte.
pub const FLAG_HAS_REDIRECT: u8 = 8;

/// The suggestion-override marker in a command node's flag byte.
pub const FLAG_HAS_SUGGESTION_TYPE: u8 = 16;

/// The command-graph packet: every node of the tree in index order, and the
/// index of the root node.
pub struct CCommands {
    pub nodes: Vec<ProtoNode>,
    pub root_node_index: VarInt,
}

/// One node of the command graph: the indices of its children, the index
/// it redirects to when it redirects, and its kind with the kind's own
/// fields.
pub struct ProtoNode {
    pub children: Vec<VarInt>,
    pub redirect_node: Option<VarInt>,
    pub node_type: ProtoNodeType,
}

/// The kind of a command node.
///
/// Only an argument node may carry a suggestion-provider override; the
/// other kinds have no field for one, so setting the override bit for them
/// cannot arise.
#[derive(Debug)]
pub enum ProtoNodeType {
    Root,
    Literal { name: String, is_executable: bool },
    Argument {
        name: String,
        is_executable: bool,
        parser: ArgumentType,
        override_suggestion_type: Option<SuggestionProviders>,
    },
}

/// The kind-derived part of a node's flag byte: kind in the low two bits,
/// executable and suggestion-override bits above them.
pub open spec fn node_flags(t: ProtoNodeType) -> u8 {
    match t {
        ProtoNodeType::Root => 0,
        ProtoNodeType::Literal { is_executable, .. } => (1 + if is_executable {
            4int
        } else {
            0int
        }) as u8,
        ProtoNodeType::Argument { is_executable, override_suggestion_type, .. } => (2 + (
        if override_suggestion_type is Some {
            16int
        } else {
            0int
        }) + (if is_executable {
            4int
        } else {
            0int
        })) as u8,
    }
}

/// The whole flag byte of a node: the kind-derived bits, plus the
/// redirect bit when a redirect target is present.
pub open spec fn node_flag_byte(n: ProtoNode) -> u8 {
    (node_flags(n.node_type) + (if n.redirect_node is Some {
        8int
    } else {
        0int
    })) as u8
}

/// The redirect bytes of a node: the target index as a VarInt when the
/// node redirects, nothing otherwise.
pub open spec fn node_redirect_bytes(r: Option<VarInt>) -> Seq<u8> {
    match r {
        Some(v) => varint_encoding(v.0),
        None => Seq::empty(),
    }
}

/// The name bytes of a node: a length-prefixed string for literal and
/// argument nodes, nothing for the root.
pub open spec fn node_name_bytes(t: ProtoNodeType) -> Seq<u8> {
    match t {
        ProtoNodeType::Root => Seq::empty(),
        ProtoNodeType::Literal { name, .. } => string_encoding(name@),
        ProtoNodeType::Argument { name, .. } => string_encoding(name@),
    }
}

/// The parser bytes of a node: the argument type's own encoding for an
/// argument node, nothing otherwise.
pub open spec fn node_parser_bytes(t: ProtoNodeType) -> Seq<u8> {
    match t {
        ProtoNodeType::Argument { parser, .. } => argument_bytes(parser),
        _ => Seq::empty(),
    }
}

/// The suggestion bytes of a node: the override's identifier string when
/// one is present, nothing otherwise.
pub open spec fn node_suggestion_bytes(t: ProtoNodeType) -> Seq<u8> {
    match t {
        ProtoNodeType::Argument { override_suggestion_type: Some(p), .. } => string_encoding(
            suggestion_identifier_chars(p),
        ),
        _ => Seq::empty(),
    }
}

/// The full wire bytes of a node: flag byte, child count and child indices
/// as VarInts, the redirect target when the redirect bit is set, then the
/// conditional name, parser and suggestion fields.
pub open spec fn node_bytes(n: ProtoNode) -> Seq<u8> {
    seq![node_flag_byte(n)] + varint_encoding(n.children@.len() as i32) + list_elems_bytes(
        n.children@,
    ) + node_redirect_bytes(n.redirect_node) + node_name_bytes(n.node_type)
        + node_parser_bytes(n.node_type) + node_suggestion_bytes(n.node_type)
}

/// Whether a node kind's strings fit their bounds and its parser is sound.
pub open spec fn node_type_wf(t: ProtoNodeType) -> bool {
    match t {
        ProtoNodeType::Root => true,
        ProtoNodeType::Literal { name, .. } => encode_utf8(name@).len() <= 32767,
        ProtoNodeType::Argument { name, parser, override_suggestion_type, .. } => encode_utf8(
            name@,
        ).len() <= 32767 && parser.wf() && (match override_suggestion_type {
            Some(p) => encode_utf8(suggestion_identifier_chars(p)).len() <= 32767,
            None => true,
        }),
    }
}

/// The wire bytes of a whole command-graph packet: the node count as a
/// VarInt, each node's bytes in index order, then the root index.
pub open spec fn ccommands_bytes(c: CCommands) -> Seq<u8> {
    varint_encoding(c.nodes@.len() as i32) + list_elems_bytes(c.nodes@) + varint_encoding(
        c.root_node_index.0,
    )
}

impl CCommands {
    /// A command-graph packet over the given nodes and root index.
    pub fn new(nodes: Vec<ProtoNode>, root_node_index: VarInt) -> (r: CCommands)
        ensures
            r.nodes == nodes,
            r.root_node_index == root_node_index,
    {
        CCommands { nodes, root_node_index }
    }

    /// Writes the packet payload: node count, nodes, root index.
    pub fn write(&self, bytebuf: &mut ByteBuffer)
        requires
            self.nodes@.len() <= 0x7fff_ffff,
            forall|i: int| 0 <= i < self.nodes@.len() ==> (#[trigger] self.nodes@[i]).wf(),
        ensures
            final(bytebuf)@ == old(bytebuf)@ + ccommands_bytes(*self),
    {
        bytebuf.put_list(self.nodes.as_slice());
        bytebuf.put_var_int(&self.root_node_index);
        proof {
            assert(final(bytebuf)@ =~= old(bytebuf)@ + ccommands_bytes(*self));
        }
    }
}

impl ProtoNode {
    /// Whether this node may be encoded: its child count fits a VarInt and
    /// its kind's strings fit their bounds.
    pub open spec fn wf(&self) -> bool {
        self.children@.len() <= 0x7fff_ffff && node_type_wf(self.node_type)
    }

    /// Writes this node: flag byte, children, the redirect target when one
    /// is present, then the kind's conditional fields in wire order.
    #[verifier::rlimit(60)]
    pub fn write_to(&self, bytebuf: &mut ByteBuffer)
        requires
            self.wf(),
        ensures
            final(bytebuf)@ == old(bytebuf)@ + node_bytes(*self),
    {
        let kind_flags: u8 = match &self.node_type {
            ProtoNodeType::Root => 0,
            ProtoNodeType::Literal { is_executable, .. } => {
                let mut n: u8 = 1;
                if *is_executable {
                    n = n + FLAG_IS_EXECUTABLE;
                }
                n
            },
            ProtoNodeType::Argument { is_executable, override_suggestion_type, .. } => {
                let mut n: u8 = 2;
                if override_suggestion_type.is_some() {
                    n = n + FLAG_HAS_SUGGESTION_TYPE;
                }
                if *is_executable {
                    n = n + FLAG_IS_EXECUTABLE;
                }
                n
            },
        };
        let flags: u8 = if self.redirect_node.is_some() {
            kind_flags + FLAG_HAS_REDIRECT
        } else {
            kind_flags
        };
        bytebuf.put_u8(flags);
        bytebuf.put_list(self.children.as_slice());
        if let Some(target) = &self.redirect_node {
            bytebuf.put_var_int(target);
        }
        match &self.node_type {
            ProtoNodeType::Argument { name, .. } => bytebuf.put_string(name.as_str()),
            ProtoNodeType::Literal { name, .. } => bytebuf.put_string(name.as_str()),
            ProtoNodeType::Root => {},
        }
        if let ProtoNodeType::Argument { parser, .. } = &self.node_type {
            parser.write_to_buffer(bytebuf);
        }
        if let ProtoNodeType::Argument { override_suggestion_type: Some(p), .. } = &self.node_type {
            bytebuf.put_string(p.identifier());
        }
        proof {
            assert(final(bytebuf)@ =~= old(bytebuf)@ + node_bytes(*self));
        }
    }
}

impl Encode for ProtoNode {
    open spec fn encodable(&self) -> bool {
        self.wf()
    }

    open spec fn wire_bytes(&self) -> Seq<u8> {
        node_bytes(*self)
    }

    fn write_to(&self, bytebuf: &mut ByteBuffer) {
        ProtoNode::write_to(self, bytebuf);
    }
}

/// A number bound written inside an argument's payload.
pub trait NumberCmdArg: Sized {
    /// The exact wire bytes of this bound value.
    spec fn num_bytes(self) -> Seq<u8>;

    /// Appends the bound's wire bytes to `bytebuf`.
    fn write(self, bytebuf: &mut ByteBuffer)
        ensures
            final(bytebuf)@ == old(bytebuf)@ + self.num_bytes(),
    ;
}

impl NumberCmdArg for i32 {
    open spec fn num_bytes(self) -> Seq<u8> {
        u32_be_bytes(u32_of_i32(self))
    }

    fn write(self, bytebuf: &mut ByteBuffer) {
        bytebuf.put_i32(self);
    }
}

impl NumberCmdArg for i64 {
    open spec fn num_bytes(self) -> Seq<u8> {
        u64_be_bytes(u64_of_i64(self))
    }

    fn write(self, bytebuf: &mut ByteBuffer) {
        bytebuf.put_i64(self);
    }
}

impl NumberCmdArg for u32 {
    open spec fn num_bytes(self) -> Seq<u8> {
        u32_be_bytes(self)
    }

    fn write(self, bytebuf: &mut ByteBuffer) {
        bytebuf.put_u32(self);
    }
}

impl NumberCmdArg for u64 {
    open spec fn num_bytes(self) -> Seq<u8> {
        u64_be_bytes(self)
    }

    fn write(self, bytebuf: &mut ByteBuffer) {
        bytebuf.put_u64(self);
    }
}

/// The payload of a numeric argument: one byte flagging which bounds are
/// present (1 for a minimum, 2 for a maximum), then the present bounds in
/// minimum-then-maximum order.
pub open spec fn number_arg_bytes<T: NumberCmdArg>(min: Option<T>, max: Option<T>) -> Seq<u8> {
    seq![((if min is Some {
        1int
    } else {
        0int
    }) + (if max is Some {
        2int
    } else {
        0int
    })) as u8] + (match min {
        Some(m) => m.num_bytes(),
        None => Seq::empty(),
    }) + (match max {
        Some(m) => m.num_bytes(),
        None => Seq::empty(),
    })
}

/// The kinds of command argument the protocol defines.
///
/// Each kind's wire identifier is a stable small integer given explicitly
/// by [`argument_id`], never derived from in-memory layout. The bounds of
/// `Float` and `Double` are carried as the IEEE-754 bit patterns of the
/// 32- and 64-bit values written on the wire.
#[derive(Debug, Clone)]
pub enum ArgumentType {
    Bool,
    Float { min: Option<u32>, max: Option<u32> },
    Double { min: Option<u64>, max: Option<u64> },
    Integer { min: Option<i32>, max: Option<i32> },
    Long { min: Option<i64>, max: Option<i64> },
    String(StringProtoArgBehavior),
    Entity { flags: u8 },
    GameProfile,
    BlockPos,
    ColumnPos,
    Vec3,
    Vec2,
    BlockState,
    BlockPredicate,
    ItemStack,
    ItemPredicate,
    Color,
    Component,
    Style,
    Message,
    Nbt,
    NbtTag,
    NbtPath,
    Objective,
    ObjectiveCriteria,
    Operation,
    Particle,
    Angle,
    Rotation,
    ScoreboardSlot,
    ScoreHolder { flags: u8 },
    Swizzle,
    Team,
    ItemSlot,
    ItemSlots,
    ResourceLocation,
    Function,
    EntityAnchor,
    IntRange,
    FloatRange,
    Dimension,
    Gamemode,
    Time { min: i32 },
    ResourceOrTag { identifier: String },
    ResourceOrTagKey { identifier: String },
    Resource { identifier: String },
    ResourceKey { identifier: String },
    TemplateMirror,
    TemplateRotation,
    Heightmap,
    LootTable,
    LootPredicate,
    LootModifier,
    Uuid,
}

/// The stable wire identifier of each argument kind, fixed by the external
/// protocol specification.
pub open spec fn argument_id(a: ArgumentType) -> i32 {
    match a {
        ArgumentType::Bool => 0,
        ArgumentType::Float { .. } => 1,
        ArgumentType::Double { .. } => 2,
        ArgumentType::Integer { .. } => 3,
        ArgumentType::Long { .. } => 4,
        ArgumentType::String(_) => 5,
        ArgumentType::Entity { .. } => 6,
        ArgumentType::GameProfile => 7,
        ArgumentType::BlockPos => 8,
        ArgumentType::ColumnPos => 9,
        ArgumentType::Vec3 => 10,
        ArgumentType::Vec2 => 11,
        ArgumentType::BlockState => 12,
        ArgumentType::BlockPredicate => 13,
        ArgumentType::ItemStack => 14,
        ArgumentType::ItemPredicate => 15,
        ArgumentType::Color => 16,
        ArgumentType::Component => 17,
        ArgumentType::Style => 18,
        ArgumentType::Message => 19,
        ArgumentType::Nbt => 20,
        ArgumentType::NbtTag => 21,
        ArgumentType::NbtPath => 22,
        ArgumentType::Objective => 23,
        ArgumentType::ObjectiveCriteria => 24,
        ArgumentType::Operation => 25,
        ArgumentType::Particle => 26,
        ArgumentType::Angle => 27,
        ArgumentType::Rotation => 28,
        ArgumentType::ScoreboardSlot => 29,
        ArgumentType::ScoreHolder { .. } => 30,
        ArgumentType::Swizzle => 31,
        ArgumentType::Team => 32,
        ArgumentType::ItemSlot => 33,
        ArgumentType::ItemSlots => 34,
        ArgumentType::ResourceLocation => 35,
        ArgumentType::Function => 36,
        ArgumentType::EntityAnchor => 37,
        ArgumentType::IntRange => 38,
        ArgumentType::FloatRange => 39,
        ArgumentType::Dimension => 40,
        ArgumentType::Gamemode => 41,
        ArgumentType::Time { .. } => 42,
        ArgumentType::ResourceOrTag { .. } => 43,
        ArgumentType::ResourceOrTagKey { .. } => 44,
        ArgumentType::Resource { .. } => 45,
        ArgumentType::ResourceKey { .. } => 46,
        ArgumentType::TemplateMirror => 47,
        ArgumentType::TemplateRotation => 48,
        ArgumentType::Heightmap => 49,
        ArgumentType::LootTable => 50,
        ArgumentType::LootPredicate => 51,
        ArgumentType::LootModifier => 52,
        ArgumentType::Uuid => 53,
    }
}

/// The per-kind payload that follows an argument's wire identifier.
pub open spec fn argument_payload(a: ArgumentType) -> Seq<u8> {
    match a {
        ArgumentType::Float { min, max } => number_arg_bytes(min, max),
        ArgumentType::Double { min, max } => number_arg_bytes(min, max),
        ArgumentType::Integer { min, max } => number_arg_bytes(min, max),
        ArgumentType::Long { min, max } => number_arg_bytes(min, max),
        ArgumentType::String(behavior) => varint_encoding(string_behavior_id(behavior)),
        ArgumentType::Entity { flags } => seq![flags],
        ArgumentType::ScoreHolder { flags } => seq![flags],
        ArgumentType::Time { min } => u32_be_bytes(u32_of_i32(min)),
        ArgumentType::ResourceOrTag { identifier } => string_encoding(identifier@),
        ArgumentType::ResourceOrTagKey { identifier } => string_encoding(identifier@),
        ArgumentType::Resource { identifier } => string_encoding(identifier@),
        ArgumentType::ResourceKey { identifier } => string_encoding(identifier@),
        _ => Seq::empty(),
    }
}

/// The full wire bytes of an argument type: its identifier as a VarInt,
/// then its per-kind payload.
pub open spec fn argument_bytes(a: ArgumentType) -> Seq<u8> {
    varint_encoding(argument_id(a)) + argument_payload(a)
}

impl ArgumentType {
    /// The single-target-only flag of an entity argument.
    pub const ENTITY_FLAG_ONLY_SINGLE: u8 = 1;

    /// The players-only flag of an entity argument.
    pub const ENTITY_FLAG_PLAYERS_ONLY: u8 = 2;

    /// The allow-multiple flag of a score-holder argument.
    pub const SCORE_HOLDER_FLAG_ALLOW_MULTIPLE: u8 = 1;

    /// Whether this argument's strings fit the default bound.
    pub open spec fn wf(&self) -> bool {
        match self {
            ArgumentType::ResourceOrTag { identifier } => encode_utf8(identifier@).len() <= 32767,
            ArgumentType::ResourceOrTagKey { identifier } => encode_utf8(identifier@).len()
                <= 32767,
            ArgumentType::Resource { identifier } => encode_utf8(identifier@).len() <= 32767,
            ArgumentType::ResourceKey { identifier } => encode_utf8(identifier@).len() <= 32767,
            _ => true,
        }
    }

    /// The stable wire identifier of this argument kind.
    pub fn id(&self) -> (r: i32)
        ensures
            r == argument_id(*self),
    {
        match self {
            ArgumentType::Bool => 0,
            ArgumentType::Float { .. } => 1,
            ArgumentType::Double { .. } => 2,
            ArgumentType::Integer { .. } => 3,
            ArgumentType::Long { .. } => 4,
            ArgumentType::String(_) => 5,
            ArgumentType::Entity { .. } => 6,
            ArgumentType::GameProfile => 7,
            ArgumentType::BlockPos => 8,
            ArgumentType::ColumnPos => 9,
            ArgumentType::Vec3 => 10,
            ArgumentType::Vec2 => 11,
            ArgumentType::BlockState => 12,
            ArgumentType::BlockPredicate => 13,
            ArgumentType::ItemStack => 14,
            ArgumentType::ItemPredicate => 15,
            ArgumentType::Color => 16,
            ArgumentType::Component => 17,
            ArgumentType::Style => 18,
            ArgumentType::Message => 19,
            ArgumentType::Nbt => 20,
            ArgumentType::NbtTag => 21,
            ArgumentType::NbtPath => 22,
            ArgumentType::Objective => 23,
            ArgumentType::ObjectiveCriteria => 24,
            ArgumentType::Operation => 25,
            ArgumentType::Particle => 26,
            ArgumentType::Angle => 27,
            ArgumentType::Rotation => 28,
            ArgumentType::ScoreboardSlot => 29,
            ArgumentType::ScoreHolder { .. } => 30,
            ArgumentType::Swizzle => 31,
            ArgumentType::Team => 32,
            ArgumentType::ItemSlot => 33,
            ArgumentType::ItemSlots => 34,
            ArgumentType::ResourceLocation => 35,
            ArgumentType::Function => 36,
            ArgumentType::EntityAnchor => 37,
            ArgumentType::IntRange => 38,
            ArgumentType::FloatRange => 39,
            ArgumentType::Dimension => 40,
            ArgumentType::Gamemode => 41,
            ArgumentType::Time { .. } => 42,
            ArgumentType::ResourceOrTag { .. } => 43,
            ArgumentType::ResourceOrTagKey { .. } => 44,
            ArgumentType::Resource { .. } => 45,
            ArgumentType::ResourceKey { .. } => 46,
            ArgumentType::TemplateMirror => 47,
            ArgumentType::TemplateRotation => 48,
            ArgumentType::Heightmap => 49,
            ArgumentType::LootTable => 50,
            ArgumentType::LootPredicate => 51,
            ArgumentType::LootModifier => 52,
            ArgumentType::Uuid => 53,
        }
    }

    /// Writes this argument type: its wire identifier, then its payload.
    pub fn write_to_buffer(&self, bytebuf: &mut ByteBuffer)
        requires
            self.wf(),
        ensures
            final(bytebuf)@ == old(bytebuf)@ + argument_bytes(*self),
    {
        let id = self.id();
        bytebuf.put_var_int(&VarInt(id));
        match self {
            ArgumentType::Float { min, max } => Self::write_number_arg(*min, *max, bytebuf),
            ArgumentType::Double { min, max } => Self::write_number_arg(*min, *max, bytebuf),
            ArgumentType::Integer { min, max } => Self::write_number_arg(*min, *max, bytebuf),
            ArgumentType::Long { min, max } => Self::write_number_arg(*min, *max, bytebuf),
            ArgumentType::String(behavior) => {
                let i: i32 = match behavior {
                    StringProtoArgBehavior::SingleWord => 0,
                    StringProtoArgBehavior::QuotablePhrase => 1,
                    StringProtoArgBehavior::GreedyPhrase => 2,
                };
                bytebuf.put_var_int(&VarInt(i));
            },
            ArgumentType::Entity { flags } => Self::write_with_flags(*flags, bytebuf),
            ArgumentType::ScoreHolder { flags } => Self::write_with_flags(*flags, bytebuf),
            ArgumentType::Time { min } => {
                bytebuf.put_i32(*min);
            },
            ArgumentType::ResourceOrTag { identifier } => Self::write_with_identifier(
                identifier.as_str(),
                bytebuf,
            ),
            ArgumentType::ResourceOrTagKey { identifier } => Self::write_with_identifier(
                identifier.as_str(),
                bytebuf,
            ),
            ArgumentType::Resource { identifier } => Self::write_with_identifier(
                identifier.as_str(),
                bytebuf,
            ),
            ArgumentType::ResourceKey { identifier } => Self::write_with_identifier(
                identifier.as_str(),
                bytebuf,
            ),
            _ => {},
        }
        proof {
            assert(final(bytebuf)@ =~= old(bytebuf)@ + argument_bytes(*self));
        }
    }

    /// Writes the presence-flag byte and the bounds that are present, in
    /// minimum-then-maximum order.
    fn write_number_arg<T: NumberCmdArg + Copy>(
        min: Option<T>,
        max: Option<T>,
        bytebuf: &mut ByteBuffer,
    )
        ensures
            final(bytebuf)@ == old(bytebuf)@ + number_arg_bytes(min, max),
    {
        let mut flags: u8 = 0;
        if min.is_some() {
            flags = flags + 1;
        }
        if max.is_some() {
            flags = flags + 2;
        }
        bytebuf.put_u8(flags);
        if let Some(m) = min {
            m.write(bytebuf);
        }
        if let Some(m) = max {
            m.write(bytebuf);
        }
        proof {
            assert(final(bytebuf)@ =~= old(bytebuf)@ + number_arg_bytes(min, max));
        }
    }

    /// Writes a one-byte flag set.
    fn write_with_flags(flags: u8, bytebuf: &mut ByteBuffer)
        ensures
            final(bytebuf)@ == old(bytebuf)@.push(flags),
    {
        bytebuf.put_u8(flags);
    }

    /// Writes an extra identifier as a length-prefixed string.
    fn write_with_identifier(extra_identifier: &str, bytebuf: &mut ByteBuffer)
        requires
            encode_utf8(extra_identifier@).len() <= 32767,
        ensures
            final(bytebuf)@ == old(bytebuf)@ + string_encoding(extra_identifier@),
    {
        bytebuf.put_string(extra_identifier);
    }
}

/// How a string argument consumes its input.
#[derive(Debug, Clone, Copy, PartialEq, Eq, Structural)]
pub enum StringProtoArgBehavior {
    SingleWord,
    QuotablePhrase,
    /// Does not stop after a space.
    GreedyPhrase,
}

/// The wire selector of a string argument's behavior.
pub open spec fn string_behavior_id(b: StringProtoArgBehavior) -> i32 {
    match b {
        StringProtoArgBehavior::SingleWord => 0,
        StringProtoArgBehavior::QuotablePhrase => 1,
        StringProtoArgBehavior::GreedyPhrase => 2,
    }
}

/// The closed set of client-side autocompletion sources a node may name.
#[derive(Debug, Clone, Copy, PartialEq, Eq, Structural)]
pub enum SuggestionProviders {
    AskServer,
    AllRecipes,
    AvailableSounds,
    SummonableEntities,
}

/// The canonical identifier string of each suggestion provider.
pub open spec fn suggestion_identifier_chars(p: SuggestionProviders) -> Seq<char> {
    match p {
        SuggestionProviders::AskServer => "minecraft:ask_server"@,
        SuggestionProviders::AllRecipes => "minecraft:all_recipes"@,
        SuggestionProviders::AvailableSounds => "minecraft:available_sounds"@,
        SuggestionProviders::SummonableEntities => "minecraft:summonable_entities"@,
    }
}

impl SuggestionProviders {
    /// The canonical identifier of this provider.
    pub fn identifier(&self) -> (r: &'static str)
        ensures
            r@ == suggestion_identifier_chars(*self),
    {
        match self {
            SuggestionProviders::AskServer => "minecraft:ask_server",
            SuggestionProviders::AllRecipes => "minecraft:all_recipes",
            SuggestionProviders::AvailableSounds => "minecraft:available_sounds",
            SuggestionProviders::SummonableEntities => "minecraft:summonable_entities",
        }
    }
}

/// Every suggestion provider's identifier fits the default string bound,
/// so an argument node carrying an override is always well formed once its
/// name and parser are.
pub proof fn lemma_suggestion_identifier_fits(p: SuggestionProviders)
    ensures
        encode_utf8(suggestion_identifier_chars(p)).len() <= 32767,
{
    crate::bytebuf::lemma_encode_utf8_len_bound(suggestion_identifier_chars(p));
    match p {
        SuggestionProviders::AskServer => {
            reveal_strlit("minecraft:ask_server");
            assert(suggestion_identifier_chars(p).len() == 20);
        },
        SuggestionProviders::AllRecipes => {
            reveal_strlit("minecraft:all_recipes");
            assert(suggestion_identifier_chars(p).len() == 21);
        },
        SuggestionProviders::AvailableSounds => {
            reveal_strlit("minecraft:available_sounds");
            assert(suggestion_identifier_chars(p).len() == 26);
        },
        SuggestionProviders::SummonableEntities => {
            reveal_strlit("minecraft:summonable_entities");
            assert(suggestion_identifier_chars(p).len() == 29);
        },
    }
}

} // verus!
