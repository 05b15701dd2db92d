use pumpkin_protocol::codec::var_int::VarInt;
use pumpkin_protocol::commands::{
    ArgumentType, CCommands, ProtoNode, ProtoNodeType, StringProtoArgBehavior, SuggestionProviders,
};
use pumpkin_protocol::ByteBuffer;

fn node_bytes(node: &ProtoNode) -> Vec<u8> {
    let mut buf = ByteBuffer::new();
    node.write_to(&mut buf);
    buf.into_vec()
}

fn argument_bytes(arg: &ArgumentType) -> Vec<u8> {
    let mut buf = ByteBuffer::new();
    arg.write_to_buffer(&mut buf);
    buf.into_vec()
}

#[test]
fn root_and_literal_graph_encodes_expected_bytes() {
    let root = ProtoNode {
        children: vec![VarInt(1)],
        redirect_node: None,
        node_type: ProtoNodeType::Root,
    };
    let help = ProtoNode {
        children: vec![],
        redirect_node: None,
        node_type: ProtoNodeType::Literal { name: String::from("help"), is_executable: true },
    };
    assert_eq!(node_bytes(&root), vec![0x00, 0x01, 0x01]);
    assert_eq!(node_bytes(&help), vec![0x05, 0x00, 0x04, b'h', b'e', b'l', b'p']);

    let packet = CCommands::new(vec![root, help], VarInt(0));
    let mut buf = ByteBuffer::new();
    packet.write(&mut buf);
    assert_eq!(
        buf.into_vec(),
        vec![0x02, 0x00, 0x01, 0x01, 0x05, 0x00, 0x04, b'h', b'e', b'l', b'p', 0x00]
    );
}

#[test]
fn integer_argument_with_min_only_writes_flag_one_then_value() {
    let arg = ArgumentType::Integer { min: Some(0), max: None };
    let bytes = argument_bytes(&arg);
    assert_eq!(bytes, vec![0x03, 0x01, 0x00, 0x00, 0x00, 0x00]);
}

#[test]
fn integer_argument_with_both_bounds_writes_min_then_max() {
    let arg = ArgumentType::Integer { min: Some(-1), max: Some(258) };
    let bytes = argument_bytes(&arg);
    assert_eq!(
        bytes,
        vec![0x03, 0x03, 0xff, 0xff, 0xff, 0xff, 0x00, 0x00, 0x01, 0x02]
    );
}

#[test]
fn long_argument_bounds_are_eight_bytes_each() {
    let arg = ArgumentType::Long { min: Some(1), max: Some(2) };
    let bytes = argument_bytes(&arg);
    let mut expected = vec![0x04, 0x03];
    expected.extend_from_slice(&[0, 0, 0, 0, 0, 0, 0, 1]);
    expected.extend_from_slice(&[0, 0, 0, 0, 0, 0, 0, 2]);
    assert_eq!(bytes, expected);
}

#[test]
fn float_bounds_are_carried_as_bit_patterns() {
    let arg = ArgumentType::Float { min: Some(1.5f32.to_bits()), max: None };
    let bytes = argument_bytes(&arg);
    assert_eq!(bytes, vec![0x01, 0x01, 0x3f, 0xc0, 0x00, 0x00]);
}

#[test]
fn string_argument_writes_behavior_selector() {
    assert_eq!(
        argument_bytes(&ArgumentType::String(StringProtoArgBehavior::SingleWord)),
        vec![0x05, 0x00]
    );
    assert_eq!(
        argument_bytes(&ArgumentType::String(StringProtoArgBehavior::QuotablePhrase)),
        vec![0x05, 0x01]
    );
    assert_eq!(
        argument_bytes(&ArgumentType::String(StringProtoArgBehavior::GreedyPhrase)),
        vec![0x05, 0x02]
    );
}

#[test]
fn entity_and_score_holder_write_their_flag_byte() {
    assert_eq!(
        argument_bytes(&ArgumentType::Entity {
            flags: ArgumentType::ENTITY_FLAG_ONLY_SINGLE | ArgumentType::ENTITY_FLAG_PLAYERS_ONLY
        }),
        vec![0x06, 0x03]
    );
    assert_eq!(
        argument_bytes(&ArgumentType::ScoreHolder {
            flags: ArgumentType::SCORE_HOLDER_FLAG_ALLOW_MULTIPLE
        }),
        vec![0x1e, 0x01]
    );
}

#[test]
fn time_argument_writes_fixed_minimum() {
    assert_eq!(
        argument_bytes(&ArgumentType::Time { min: 3 }),
        vec![0x2a, 0x00, 0x00, 0x00, 0x03]
    );
}

#[test]
fn resource_arguments_write_their_extra_identifier() {
    let arg = ArgumentType::Resource { identifier: String::from("ab") };
    assert_eq!(argument_bytes(&arg), vec![0x2d, 0x02, b'a', b'b']);
}

#[test]
fn suggestion_override_sets_bit_and_appends_identifier() {
    let node = ProtoNode {
        children: vec![],
        redirect_node: None,
        node_type: ProtoNodeType::Argument {
            name: String::from("x"),
            is_executable: false,
            parser: ArgumentType::Bool,
            override_suggestion_type: Some(SuggestionProviders::AskServer),
        },
    };
    let mut expected = vec![0x12, 0x00, 0x01, b'x', 0x00, 20];
    expected.extend_from_slice(b"minecraft:ask_server");
    assert_eq!(node_bytes(&node), expected);
}

#[test]
fn redirecting_node_sets_bit_and_writes_target() {
    let node = ProtoNode {
        children: vec![],
        redirect_node: Some(VarInt(1)),
        node_type: ProtoNodeType::Literal { name: String::from("w"), is_executable: false },
    };
    assert_eq!(node_bytes(&node), vec![0x09, 0x00, 0x01, 0x01, b'w']);
}

#[test]
fn suggestion_identifiers_are_canonical() {
    assert_eq!(SuggestionProviders::AskServer.identifier(), "minecraft:ask_server");
    assert_eq!(SuggestionProviders::AllRecipes.identifier(), "minecraft:all_recipes");
    assert_eq!(SuggestionProviders::AvailableSounds.identifier(), "minecraft:available_sounds");
    assert_eq!(
        SuggestionProviders::SummonableEntities.identifier(),
        "minecraft:summonable_entities"
    );
}

#[test]
fn argument_ids_are_pinned() {
    let cases: Vec<(ArgumentType, i32)> = vec![
        (ArgumentType::Bool, 0),
        (ArgumentType::Float { min: None, max: None }, 1),
        (ArgumentType::Double { min: None, max: None }, 2),
        (ArgumentType::Integer { min: None, max: None }, 3),
        (ArgumentType::Long { min: None, max: None }, 4),
        (ArgumentType::String(StringProtoArgBehavior::SingleWord), 5),
        (ArgumentType::Entity { flags: 0 }, 6),
        (ArgumentType::GameProfile, 7),
        (ArgumentType::BlockPos, 8),
        (ArgumentType::ColumnPos, 9),
        (ArgumentType::Vec3, 10),
        (ArgumentType::Vec2, 11),
        (ArgumentType::BlockState, 12),
        (ArgumentType::BlockPredicate, 13),
        (ArgumentType::ItemStack, 14),
        (ArgumentType::ItemPredicate, 15),
        (ArgumentType::Color, 16),
        (ArgumentType::Component, 17),
        (ArgumentType::Style, 18),
        (ArgumentType::Message, 19),
        (ArgumentType::Nbt, 20),
        (ArgumentType::NbtTag, 21),
        (ArgumentType::NbtPath, 22),
        (ArgumentType::Objective, 23),
        (ArgumentType::ObjectiveCriteria, 24),
        (ArgumentType::Operation, 25),
        (ArgumentType::Particle, 26),
        (ArgumentType::Angle, 27),
        (ArgumentType::Rotation, 28),
        (ArgumentType::ScoreboardSlot, 29),
        (ArgumentType::ScoreHolder { flags: 0 }, 30),
        (ArgumentType::Swizzle, 31),
        (ArgumentType::Team, 32),
        (ArgumentType::ItemSlot, 33),
        (ArgumentType::ItemSlots, 34),
        (ArgumentType::ResourceLocation, 35),
        (ArgumentType::Function, 36),
        (ArgumentType::EntityAnchor, 37),
        (ArgumentType::IntRange, 38),
        (ArgumentType::FloatRange, 39),
        (ArgumentType::Dimension, 40),
        (ArgumentType::Gamemode, 41),
        (ArgumentType::Time { min: 0 }, 42),
        (ArgumentType::ResourceOrTag { identifier: String::new() }, 43),
        (ArgumentType::ResourceOrTagKey { identifier: String::new() }, 44),
        (ArgumentType::Resource { identifier: String::new() }, 45),
        (ArgumentType::ResourceKey { identifier: String::new() }, 46),
        (ArgumentType::TemplateMirror, 47),
        (ArgumentType::TemplateRotation, 48),
        (ArgumentType::Heightmap, 49),
        (ArgumentType::LootTable, 50),
        (ArgumentType::LootPredicate, 51),
        (ArgumentType::LootModifier, 52),
        (ArgumentType::Uuid, 53),
    ];
    assert_eq!(cases.len(), 54);
    for (arg, id) in &cases {
        assert_eq!(arg.id(), *id);
    }
}
