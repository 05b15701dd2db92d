use pumpkin_protocol::{ByteBuffer, ByteCursor, ReadingError};

#[test]
fn fixed_width_writes_are_big_endian() {
    let mut buf = ByteBuffer::new();
    buf.put_u8(0x7f);
    buf.put_u16(0x1234);
    buf.put_u32(0xdead_beef);
    buf.put_u64(0x0102_0304_0506_0708);
    buf.put_bool(true);
    buf.put_bool(false);
    assert_eq!(
        buf.into_vec(),
        vec![
            0x7f, 0x12, 0x34, 0xde, 0xad, 0xbe, 0xef, 0x01, 0x02, 0x03, 0x04, 0x05, 0x06, 0x07,
            0x08, 0x01, 0x00,
        ]
    );
}

#[test]
fn signed_writes_use_two_complement_bits() {
    let mut buf = ByteBuffer::new();
    buf.put_i8(-1);
    buf.put_i16(-2);
    buf.put_i32(-3);
    buf.put_i64(-4);
    assert_eq!(
        buf.into_vec(),
        vec![
            0xff, 0xff, 0xfe, 0xff, 0xff, 0xff, 0xfd, 0xff, 0xff, 0xff, 0xff, 0xff, 0xff, 0xff,
            0xfc,
        ]
    );
}

#[test]
fn fixed_width_reads_round_trip() {
    let mut buf = ByteBuffer::new();
    buf.put_u16(0xabcd);
    buf.put_u32(7);
    buf.put_u64(u64::MAX);
    buf.put_i16(i16::MIN);
    buf.put_i32(i32::MIN);
    buf.put_i64(i64::MIN);
    buf.put_i8(-100);
    let mut cur = ByteCursor::new(buf.into_vec());
    assert_eq!(cur.try_get_u16().unwrap(), 0xabcd);
    assert_eq!(cur.try_get_u32().unwrap(), 7);
    assert_eq!(cur.try_get_u64().unwrap(), u64::MAX);
    assert_eq!(cur.try_get_i16().unwrap(), i16::MIN);
    assert_eq!(cur.try_get_i32().unwrap(), i32::MIN);
    assert_eq!(cur.try_get_i64().unwrap(), i64::MIN);
    assert_eq!(cur.try_get_i8().unwrap(), -100);
    assert_eq!(cur.remaining(), 0);
}

#[test]
fn nonzero_byte_reads_as_true() {
    let mut cur = ByteCursor::new(vec![0x00, 0x01, 0x2a]);
    assert_eq!(cur.try_get_bool().unwrap(), false);
    assert_eq!(cur.try_get_bool().unwrap(), true);
    assert_eq!(cur.try_get_bool().unwrap(), true);
}

#[test]
fn short_input_reports_end_of_input() {
    let mut cur = ByteCursor::new(vec![0x01]);
    assert!(matches!(cur.try_get_u16(), Err(ReadingError::EOF(_))));
    let mut empty = ByteCursor::new(vec![]);
    assert!(matches!(empty.try_get_u8(), Err(ReadingError::EOF(_))));
    assert!(matches!(empty.try_get_bool(), Err(ReadingError::EOF(_))));
}

#[test]
fn copy_bytes_takes_exact_prefix() {
    let mut cur = ByteCursor::new(vec![1, 2, 3, 4, 5]);
    let taken = cur.try_copy_to_bytes(3).unwrap();
    assert_eq!(taken, vec![1, 2, 3]);
    assert_eq!(cur.remaining(), 2);
    assert!(matches!(cur.try_copy_to_bytes(3), Err(ReadingError::Message(_))));
    assert_eq!(cur.remaining(), 2);
}

#[test]
fn bounded_copy_refuses_oversized_request() {
    let mut cur = ByteCursor::new(vec![1, 2, 3, 4, 5]);
    assert!(matches!(cur.try_copy_to_bytes_len(4, 3), Err(ReadingError::Message(_))));
    assert_eq!(cur.remaining(), 5);
    assert_eq!(cur.try_copy_to_bytes_len(3, 3).unwrap(), vec![1, 2, 3]);
}

#[test]
fn put_slice_appends_bytes() {
    let mut buf = ByteBuffer::new();
    buf.put_slice(&[9, 8, 7]);
    buf.put_slice(&[]);
    buf.put_slice(&[6]);
    assert_eq!(buf.len(), 4);
    assert_eq!(buf.as_slice(), &[9, 8, 7, 6]);
}

#[test]
fn fixed_bitset_reads_ceil_of_bits() {
    let mut cur = ByteCursor::new(vec![0xff, 0x01, 0x02]);
    let set = cur.try_get_fixed_bitset(9).unwrap();
    assert_eq!(set, vec![0xff, 0x01]);
    assert_eq!(cur.remaining(), 1);
    let mut short = ByteCursor::new(vec![0x00]);
    assert!(matches!(short.try_get_fixed_bitset(17), Err(ReadingError::Message(_))));
}
