use pumpkin_protocol::serializer::Serializer;
use pumpkin_protocol::{ByteBuffer, ByteCursor, VarInt};

#[test]
fn test_i32_reserialize() {
    let mut serializer = Serializer::new(ByteBuffer::new());
    serializer.serialize_i32(69).unwrap();
    let buffer: ByteBuffer = serializer.into();
    let mut cursor = ByteCursor::new(buffer.into_vec());
    let deserialized = cursor.try_get_i32().unwrap();
    assert_eq!(deserialized, 69);
}

#[test]
fn test_varint_reserialize() {
    let mut serializer = Serializer::new(ByteBuffer::new());
    serializer.output_mut().put_var_int(&VarInt(69));
    let buffer: ByteBuffer = serializer.into();
    let mut cursor = ByteCursor::new(buffer.into_vec());
    let deserialized = cursor.try_get_var_int().unwrap();
    assert_eq!(deserialized, VarInt(69));
}

#[test]
fn scalar_fields_encode_in_order() {
    let mut s = Serializer::new(ByteBuffer::new());
    s.serialize_bool(true).unwrap();
    s.serialize_u8(7).unwrap();
    s.serialize_i16(-1).unwrap();
    s.serialize_u32(0x01020304).unwrap();
    let buffer: ByteBuffer = s.into();
    assert_eq!(buffer.into_vec(), vec![1, 7, 0xff, 0xff, 1, 2, 3, 4]);
}

#[test]
fn str_fields_carry_a_length_prefix_and_bytes_do_not() {
    let mut s = Serializer::new(ByteBuffer::new());
    s.serialize_str("hi").unwrap();
    s.serialize_bytes(&[0xaa, 0xbb]).unwrap();
    let buffer: ByteBuffer = s.into();
    assert_eq!(buffer.into_vec(), vec![2, b'h', b'i', 0xaa, 0xbb]);
}

#[test]
fn seq_header_writes_the_count() {
    let mut s = Serializer::new(ByteBuffer::new());
    s.serialize_seq(Some(300)).unwrap();
    let buffer: ByteBuffer = s.into();
    assert_eq!(buffer.into_vec(), vec![0xac, 0x02]);
}

#[test]
fn seq_with_unknown_count_is_refused() {
    let mut s = Serializer::new(ByteBuffer::new());
    assert!(s.serialize_seq(None).is_err());
    let buffer: ByteBuffer = s.into();
    assert_eq!(buffer.into_vec(), Vec::<u8>::new());
}

#[test]
fn output_ref_sees_written_bytes() {
    let mut s = Serializer::new(ByteBuffer::new());
    s.serialize_u16(0x0102).unwrap();
    assert_eq!(s.output_ref().as_slice(), &[1, 2]);
}
