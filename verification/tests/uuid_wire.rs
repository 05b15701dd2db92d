use pumpkin_protocol::{ByteBuffer, ByteCursor, ReadingError, Uuid};

#[test]
fn uuid_one_encodes_to_fifteen_zeros_then_one() {
    let u = Uuid::from_u64_pair(0, 1);
    let mut buf = ByteBuffer::new();
    buf.put_uuid(&u);
    let bytes = buf.into_vec();
    assert_eq!(bytes.len(), 16);
    for b in &bytes[..15] {
        assert_eq!(*b, 0x00);
    }
    assert_eq!(bytes[15], 0x01);
}

#[test]
fn uuid_matches_external_parse() {
    let parsed = uuid::Uuid::parse_str("00000000-0000-0000-0000-000000000001").unwrap();
    let (most, least) = parsed.as_u64_pair();
    assert_eq!((most, least), (0, 1));
    let ours = Uuid::from_u64_pair(most, least);
    let mut buf = ByteBuffer::new();
    buf.put_uuid(&ours);
    assert_eq!(buf.into_vec(), parsed.as_bytes().to_vec());
}

#[test]
fn uuid_round_trips_high_half_first() {
    let u = Uuid::from_u64_pair(0x0123_4567_89ab_cdef, 0xfedc_ba98_7654_3210);
    let mut buf = ByteBuffer::new();
    buf.put_uuid(&u);
    let bytes = buf.into_vec();
    assert_eq!(bytes[0], 0x01);
    assert_eq!(bytes[8], 0xfe);
    let mut cur = ByteCursor::new(bytes);
    let got = cur.try_get_uuid().unwrap();
    assert_eq!(got, u);
    assert_eq!(got.as_u64_pair(), (0x0123_4567_89ab_cdef, 0xfedc_ba98_7654_3210));
}

#[test]
fn short_uuid_input_fails_without_consuming() {
    let mut cur = ByteCursor::new(vec![0; 15]);
    assert!(matches!(cur.try_get_uuid(), Err(ReadingError::EOF(_))));
    assert_eq!(cur.remaining(), 15);
}
