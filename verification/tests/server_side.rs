use pumpkin_protocol::boat::BoatType;
use pumpkin_protocol::server::{scrub_address, to_pumpkin_error, PumpkinError};
use pumpkin_protocol::server_links::{CConfigServerLinks, Link, LinkLabel};
use pumpkin_protocol::{ByteBuffer, VarInt};

#[test]
fn error_messages_map_to_their_class() {
    assert_eq!(to_pumpkin_error("logger broke"), PumpkinError::LoggerInitializationError);
    assert_eq!(to_pumpkin_error("failed to bind port"), PumpkinError::NetworkBindError);
    assert_eq!(to_pumpkin_error("signal handler died"), PumpkinError::SignalHandlerError);
    assert_eq!(to_pumpkin_error("bad config value"), PumpkinError::ConfigError);
    assert_eq!(to_pumpkin_error("something else"), PumpkinError::RuntimeError);
}

#[test]
fn earlier_words_win_the_classification() {
    assert_eq!(to_pumpkin_error("config logger"), PumpkinError::LoggerInitializationError);
    assert_eq!(to_pumpkin_error("bind signal"), PumpkinError::NetworkBindError);
}

#[test]
fn error_codes_are_stable() {
    assert_eq!(PumpkinError::Success.code(), 0);
    assert_eq!(PumpkinError::LoggerInitializationError.code(), 1);
    assert_eq!(PumpkinError::NetworkBindError.code(), 2);
    assert_eq!(PumpkinError::SignalHandlerError.code(), 3);
    assert_eq!(PumpkinError::RuntimeError.code(), 4);
    assert_eq!(PumpkinError::ConfigError.code(), 5);
}

#[test]
fn scrubbing_keeps_only_separators() {
    assert_eq!(scrub_address("127.0.0.1:25565", true), "xxx.x.x.x:xxxxx");
    assert_eq!(scrub_address("127.0.0.1:25565", false), "127.0.0.1:25565");
    assert_eq!(scrub_address("", true), "");
}

#[test]
fn boat_types_come_from_their_item_ids() {
    assert!(matches!(BoatType::from_item_id(803), Some(BoatType::Oak)));
    assert!(matches!(BoatType::from_item_id(813), Some(BoatType::Cherry)));
    assert!(matches!(BoatType::from_item_id(815), Some(BoatType::DarkOak)));
    assert!(matches!(BoatType::from_item_id(822), Some(BoatType::BambooChestRaft)));
    assert!(BoatType::from_item_id(817).is_none());
    assert!(BoatType::from_item_id(0).is_none());
    assert!(BoatType::from_item_id(-1).is_none());
}

#[test]
fn server_links_write_count_field_then_counted_list() {
    let links = vec![
        Link { label: LinkLabel::BuiltIn(VarInt(0)), url: String::from("a") },
        Link { label: LinkLabel::Custom(String::from("bug")), url: String::from("b") },
    ];
    let packet = CConfigServerLinks::new(VarInt(2), links);
    let mut buf = ByteBuffer::new();
    packet.write(&mut buf);
    assert_eq!(
        buf.into_vec(),
        vec![
            0x02, 0x02, 0x01, 0x00, 0x01, b'a', 0x00, 0x03, b'b', b'u', b'g', 0x01, b'b',
        ]
    );
}
