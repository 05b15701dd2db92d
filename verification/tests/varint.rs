use pumpkin_protocol::codec::var_int::VarInt;
use pumpkin_protocol::codec::var_long::VarLong;
use pumpkin_protocol::codec::DecodeError;
use pumpkin_protocol::{ByteBuffer, ByteCursor};

fn varint_round_trip(x: i32) {
    let mut buf = ByteBuffer::new();
    VarInt(x).encode(&mut buf);
    let bytes = buf.into_vec();
    assert!(bytes.len() <= 5);
    let mut cur = ByteCursor::new(bytes);
    let got = VarInt::decode(&mut cur).expect("value must decode");
    assert_eq!(got.0, x);
    assert_eq!(cur.remaining(), 0);
}

fn varlong_round_trip(x: i64) {
    let mut buf = ByteBuffer::new();
    VarLong(x).encode(&mut buf);
    let bytes = buf.into_vec();
    assert!(bytes.len() <= 10);
    let mut cur = ByteCursor::new(bytes);
    let got = VarLong::decode(&mut cur).expect("value must decode");
    assert_eq!(got.0, x);
    assert_eq!(cur.remaining(), 0);
}

#[test]
fn varint_round_trip_edge_values() {
    for &x in &[0, 1, -1, i32::MIN, i32::MAX] {
        varint_round_trip(x);
    }
}

#[test]
fn varint_round_trip_many_values() {
    let mut state: u64 = 0x2545_f491_4f6c_dd1d;
    for _ in 0..1000 {
        state = state.wrapping_mul(6364136223846793005).wrapping_add(1442695040888963407);
        varint_round_trip((state >> 16) as u32 as i32);
    }
}

#[test]
fn varlong_round_trip_edge_values() {
    for &x in &[0, 1, -1, i64::MIN, i64::MAX] {
        varlong_round_trip(x);
    }
}

#[test]
fn varlong_round_trip_many_values() {
    let mut state: u64 = 0x9e37_79b9_7f4a_7c15;
    for _ in 0..1000 {
        state = state.wrapping_mul(6364136223846793005).wrapping_add(1442695040888963407);
        varlong_round_trip(state as i64);
    }
}

#[test]
fn varint_known_encodings() {
    let cases: &[(i32, &[u8])] = &[
        (0, &[0x00]),
        (1, &[0x01]),
        (127, &[0x7f]),
        (128, &[0x80, 0x01]),
        (300, &[0xac, 0x02]),
        (25565, &[0xdd, 0xc7, 0x01]),
        (-1, &[0xff, 0xff, 0xff, 0xff, 0x0f]),
        (i32::MAX, &[0xff, 0xff, 0xff, 0xff, 0x07]),
        (i32::MIN, &[0x80, 0x80, 0x80, 0x80, 0x08]),
    ];
    for (value, expected) in cases {
        let mut buf = ByteBuffer::new();
        VarInt(*value).encode(&mut buf);
        assert_eq!(buf.into_vec().as_slice(), *expected);
    }
}

#[test]
fn varint_six_continuation_bytes_is_too_large() {
    let mut cur = ByteCursor::new(vec![0x80, 0x80, 0x80, 0x80, 0x80, 0x80]);
    assert_eq!(VarInt::decode(&mut cur), Err(DecodeError::TooLarge));
}

#[test]
fn varint_truncated_is_incomplete() {
    let mut cur = ByteCursor::new(vec![0x80, 0x80]);
    assert_eq!(VarInt::decode(&mut cur), Err(DecodeError::Incomplete));
    let mut empty = ByteCursor::new(vec![]);
    assert_eq!(VarInt::decode(&mut empty), Err(DecodeError::Incomplete));
}

#[test]
fn varlong_eleven_continuation_bytes_is_too_large() {
    let mut cur = ByteCursor::new(vec![0x80; 11]);
    assert_eq!(VarLong::decode(&mut cur), Err(DecodeError::TooLarge));
}

#[test]
fn varlong_truncated_is_incomplete() {
    let mut cur = ByteCursor::new(vec![0x80; 9]);
    assert_eq!(VarLong::decode(&mut cur), Err(DecodeError::Incomplete));
}

#[test]
fn varlong_known_encodings() {
    let cases: &[(i64, &[u8])] = &[
        (0, &[0x00]),
        (127, &[0x7f]),
        (128, &[0x80, 0x01]),
        (-1, &[0xff, 0xff, 0xff, 0xff, 0xff, 0xff, 0xff, 0xff, 0xff, 0x01]),
        (i64::MAX, &[0xff, 0xff, 0xff, 0xff, 0xff, 0xff, 0xff, 0xff, 0x7f]),
        (i64::MIN, &[0x80, 0x80, 0x80, 0x80, 0x80, 0x80, 0x80, 0x80, 0x80, 0x01]),
    ];
    for (value, expected) in cases {
        let mut buf = ByteBuffer::new();
        VarLong(*value).encode(&mut buf);
        assert_eq!(buf.into_vec().as_slice(), *expected);
    }
}

#[test]
fn varint_exactly_five_continuation_bytes_is_too_large() {
    let mut cur = ByteCursor::new(vec![0x80, 0x80, 0x80, 0x80, 0x80]);
    assert_eq!(VarInt::decode(&mut cur), Err(DecodeError::TooLarge));
    assert_eq!(cur.remaining(), 0);
}

#[test]
fn varint_decode_leaves_tail() {
    let mut buf = ByteBuffer::new();
    VarInt(300).encode(&mut buf);
    let mut bytes = buf.into_vec();
    bytes.push(0xab);
    let mut cur = ByteCursor::new(bytes);
    assert_eq!(VarInt::decode(&mut cur).unwrap().0, 300);
    assert_eq!(cur.remaining(), 1);
    assert_eq!(cur.try_get_u8().unwrap(), 0xab);
}
