use pumpkin_protocol::codec::var_int::VarInt;
use pumpkin_protocol::{BitSet, ByteBuffer, ByteCursor, ReadingError};

#[test]
fn option_some_round_trips() {
    let mut buf = ByteBuffer::new();
    buf.put_option(&Some(VarInt(5)));
    let bytes = buf.into_vec();
    assert_eq!(bytes, vec![0x01, 0x05]);
    let mut cur = ByteCursor::new(bytes);
    let got: Option<VarInt> = cur.try_get_option().unwrap();
    assert_eq!(got, Some(VarInt(5)));
    assert_eq!(cur.remaining(), 0);
}

#[test]
fn option_none_round_trips() {
    let mut buf = ByteBuffer::new();
    buf.put_option(&None::<VarInt>);
    let bytes = buf.into_vec();
    assert_eq!(bytes, vec![0x00]);
    let mut cur = ByteCursor::new(bytes);
    let got: Option<VarInt> = cur.try_get_option().unwrap();
    assert_eq!(got, None);
}

#[test]
fn option_reader_error_propagates() {
    let mut cur = ByteCursor::new(vec![0x01, 0x80]);
    let got: Result<Option<VarInt>, ReadingError> = cur.try_get_option();
    assert!(matches!(got, Err(ReadingError::Incomplete(_))));
}

fn varint_list_round_trip(values: &[i32]) {
    let mut buf = ByteBuffer::new();
    buf.put_varint_arr(values);
    let mut cur = ByteCursor::new(buf.into_vec());
    let got: Vec<VarInt> = cur.get_list().unwrap();
    assert_eq!(got.len(), values.len());
    for (g, v) in got.iter().zip(values.iter()) {
        assert_eq!(g.0, *v);
    }
    assert_eq!(cur.remaining(), 0);
}

#[test]
fn empty_list_round_trips() {
    varint_list_round_trip(&[]);
}

#[test]
fn singleton_list_round_trips() {
    varint_list_round_trip(&[42]);
}

#[test]
fn thousand_element_list_round_trips_in_order() {
    let values: Vec<i32> = (0..1000).map(|i| i * 31 - 15000).collect();
    varint_list_round_trip(&values);
}

#[test]
fn put_list_matches_put_varint_arr() {
    let values = [1, 300, -7];
    let wrapped: Vec<VarInt> = values.iter().map(|&v| VarInt(v)).collect();
    let mut a = ByteBuffer::new();
    a.put_varint_arr(&values);
    let mut b = ByteBuffer::new();
    b.put_list(&wrapped);
    assert_eq!(a.into_vec(), b.into_vec());
}

#[test]
fn list_with_failing_element_reports_first_error() {
    let mut cur = ByteCursor::new(vec![0x02, 0x05]);
    let got: Result<Vec<VarInt>, ReadingError> = cur.get_list();
    assert!(matches!(got, Err(ReadingError::Incomplete(_))));
}

#[test]
fn bit_set_writes_count_then_words() {
    let set = BitSet::new(vec![1, -1]);
    let mut buf = ByteBuffer::new();
    buf.put_bit_set(&set);
    assert_eq!(
        buf.into_vec(),
        vec![
            0x02, 0x00, 0x00, 0x00, 0x00, 0x00, 0x00, 0x00, 0x01, 0xff, 0xff, 0xff, 0xff, 0xff,
            0xff, 0xff, 0xff,
        ]
    );
}
