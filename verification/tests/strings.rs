use pumpkin_protocol::codec::var_int::VarInt;
use pumpkin_protocol::{ByteBuffer, ByteCursor, Identifier, ReadingError};

#[test]
fn string_encodes_as_length_then_bytes() {
    let mut buf = ByteBuffer::new();
    buf.put_string("help");
    assert_eq!(buf.into_vec(), vec![4, b'h', b'e', b'l', b'p']);
}

#[test]
fn string_of_exactly_max_len_round_trips() {
    let text = "abcdefgh";
    let mut buf = ByteBuffer::new();
    buf.put_string_len(text, 8);
    let mut cur = ByteCursor::new(buf.into_vec());
    let got = cur.try_get_string_len(8).expect("a string of exactly the bound must decode");
    assert_eq!(got, text);
    assert_eq!(cur.remaining(), 0);
}

#[test]
fn declared_length_over_bound_is_too_large() {
    let mut bytes = ByteBuffer::new();
    VarInt(9).encode(&mut bytes);
    let mut cur = ByteCursor::new(bytes.into_vec());
    assert!(matches!(cur.try_get_string_len(8), Err(ReadingError::TooLarge(_))));
}

#[test]
fn negative_declared_length_is_too_large() {
    let mut bytes = ByteBuffer::new();
    VarInt(-1).encode(&mut bytes);
    let mut cur = ByteCursor::new(bytes.into_vec());
    assert!(matches!(cur.try_get_string(), Err(ReadingError::TooLarge(_))));
}

#[test]
fn string_with_missing_bytes_fails() {
    let mut cur = ByteCursor::new(vec![5, b'a', b'b']);
    assert!(matches!(cur.try_get_string(), Err(ReadingError::Message(_))));
}

#[test]
fn invalid_utf8_is_a_message_error() {
    let mut cur = ByteCursor::new(vec![2, 0xc3, 0x28]);
    assert!(matches!(cur.try_get_string(), Err(ReadingError::Message(_))));
}

#[test]
fn default_bound_string_round_trips() {
    let text = "hello, \u{1f30d}!";
    let mut buf = ByteBuffer::new();
    buf.put_string(text);
    let mut cur = ByteCursor::new(buf.into_vec());
    assert_eq!(cur.try_get_string().unwrap(), text);
}

#[test]
fn string_array_writes_each_string_in_turn() {
    let mut buf = ByteBuffer::new();
    buf.put_string_array(&["ab", "c"]);
    assert_eq!(buf.into_vec(), vec![2, b'a', b'b', 1, b'c']);
}

#[test]
fn identifier_round_trips() {
    let ident = Identifier::new(String::from("minecraft:overworld"));
    let mut buf = ByteBuffer::new();
    buf.put_identifier(&ident);
    let mut cur = ByteCursor::new(buf.into_vec());
    let got = cur.try_get_identifier().unwrap();
    assert_eq!(got.text, "minecraft:overworld");
}

#[test]
fn string_decode_leaves_tail() {
    let mut buf = ByteBuffer::new();
    buf.put_string("ab");
    let mut bytes = buf.into_vec();
    bytes.push(0x99);
    let mut cur = ByteCursor::new(bytes);
    assert_eq!(cur.try_get_string().unwrap(), "ab");
    assert_eq!(cur.remaining(), 1);
}

#[test]
fn empty_string_round_trips() {
    let mut buf = ByteBuffer::new();
    buf.put_string("");
    let bytes = buf.into_vec();
    assert_eq!(bytes, vec![0]);
    let mut cur = ByteCursor::new(bytes);
    assert_eq!(cur.try_get_string().unwrap(), "");
}

#[test]
fn truncated_length_prefix_is_incomplete() {
    let mut cur = ByteCursor::new(vec![0x80]);
    assert!(matches!(cur.try_get_string(), Err(ReadingError::Incomplete(_))));
}
