use oci_bind::adapters::{read_i16, read_i32};
use oci_bind::column::{bind_column, BindError, ColumnBuffer, CHUNK_SIZE};
use oci_bind::param::{set_param_int, set_param_num};
use oci_bind::wire::{AsOci, Chr, EncodeError, Int, Num, SQLT_CHR, SQLT_INT, SQLT_NUM};

/// Reports five bytes whatever slot it is given, though it asks for four.
struct Oversized;

impl AsOci<Int> for Oversized {
    fn slot_size() -> Option<u16> {
        Some(4)
    }

    fn oci_capped_size() -> Option<u16> {
        Some(4)
    }

    fn oci_write(&self, slice: &mut [u8]) -> Result<u16, EncodeError> {
        for b in slice.iter_mut() {
            *b = 0xee;
        }
        Ok(5)
    }
}

/// Asks for a slot wider than the integer wire type allows.
struct TooWide;

impl AsOci<Int> for TooWide {
    fn slot_size() -> Option<u16> {
        Some(16)
    }

    fn oci_capped_size() -> Option<u16> {
        Some(16)
    }

    fn oci_write(&self, _slice: &mut [u8]) -> Result<u16, EncodeError> {
        Ok(0)
    }
}

/// Asks for a slot of zero bytes and writes nothing.
struct Empty;

impl AsOci<Int> for Empty {
    fn slot_size() -> Option<u16> {
        Some(0)
    }

    fn oci_capped_size() -> Option<u16> {
        Some(0)
    }

    fn oci_write(&self, _slice: &mut [u8]) -> Result<u16, EncodeError> {
        Ok(0)
    }
}

/// Character data: the bytes of the text, variable length.
struct Text(&'static str);

impl AsOci<Chr> for Text {
    fn slot_size() -> Option<u16> {
        None
    }

    fn oci_capped_size() -> Option<u16> {
        None
    }

    fn oci_write(&self, slice: &mut [u8]) -> Result<u16, EncodeError> {
        let b = self.0.as_bytes();
        if b.len() <= slice.len() {
            slice[..b.len()].copy_from_slice(b);
        }
        Ok(b.len() as u16)
    }
}

fn ok(r: Result<ColumnBuffer, BindError>) -> ColumnBuffer {
    match r {
        Ok(buf) => buf,
        Err(e) => panic!("binding failed: {:?}", e),
    }
}

#[test]
fn three_i32_rows_fill_twelve_bytes() {
    let buf = ok(bind_column::<Int, i32>(1, &vec![10, -5, 0]));
    let mut expected = Vec::new();
    for v in [10i32, -5, 0] {
        expected.extend_from_slice(&v.to_le_bytes());
    }
    assert_eq!(buf.data.len(), 12);
    assert_eq!(buf.data, expected);
    assert_eq!(buf.data, vec![10, 0, 0, 0, 0xfb, 0xff, 0xff, 0xff, 0, 0, 0, 0]);
    assert_eq!(buf.lens, vec![4, 4, 4]);
    assert_eq!(buf.offsets, vec![0, 4, 8]);
    assert_eq!(buf.col, 1);
    assert_eq!(buf.sqlt, SQLT_INT);
    assert_eq!(buf.slot_size, Some(4));
}

#[test]
fn i16_reports_two_bytes_not_four() {
    let buf = ok(set_param_int(1, 10i16));
    assert_eq!(buf.data, vec![10, 0]);
    assert_eq!(buf.lens, vec![2]);
    assert_eq!(buf.slot_size, Some(2));
    assert_eq!(buf.sqlt, SQLT_INT);
}

#[test]
fn single_i32_parameter() {
    let buf = ok(set_param_int(7, -2i32));
    assert_eq!(buf.data, (-2i32).to_le_bytes().to_vec());
    assert_eq!(buf.lens, vec![4]);
    assert_eq!(buf.offsets, vec![0]);
    assert_eq!(buf.col, 7);
}

#[test]
fn reported_length_past_slot_is_overflow() {
    let r = bind_column::<Int, Oversized>(1, &vec![Oversized]);
    assert_eq!(
        r.unwrap_err(),
        BindError::EncodingOverflow { col: 1, row: 0, sqlt: SQLT_INT, needed: 5, slot: 4 }
    );
    let r = set_param_int(3, Oversized);
    assert!(matches!(r, Err(BindError::EncodingOverflow { col: 3, row: 0, .. })));
}

#[test]
fn placeholder_numeric_adapter_is_unimplemented() {
    let r = set_param_num(1, 10i32);
    assert_eq!(r.unwrap_err(), BindError::UnimplementedAdapter { col: 1, row: 0, sqlt: SQLT_NUM });
    let mut slot = [0u8; 21];
    assert_eq!(<i32 as AsOci<Num>>::oci_write(&10, &mut slot), Err(EncodeError::Unimplemented));
    assert_eq!(slot, [0u8; 21]);
    assert_eq!(<i32 as AsOci<Num>>::oci_capped_size(), Some(21));
}

#[test]
fn first_failing_row_is_reported() {
    let r = bind_column::<Num, i32>(4, &vec![1, 2, 3]);
    assert_eq!(r.unwrap_err(), BindError::UnimplementedAdapter { col: 4, row: 0, sqlt: SQLT_NUM });
}

#[test]
fn slot_wider_than_cap_is_mismatch() {
    let r = bind_column::<Int, TooWide>(2, &vec![TooWide]);
    assert_eq!(
        r.unwrap_err(),
        BindError::CappedSizeMismatch {
            col: 2,
            sqlt: SQLT_INT,
            contract: Some(8),
            adapter: Some(16),
        }
    );
}

#[test]
fn no_rows_give_empty_buffer() {
    let buf = ok(bind_column::<Int, i32>(1, &Vec::new()));
    assert!(buf.data.is_empty());
    assert!(buf.lens.is_empty());
    assert!(buf.offsets.is_empty());
    assert_eq!(buf.sqlt, SQLT_INT);
}

#[test]
fn zero_byte_slots_give_empty_buffer() {
    let buf = ok(bind_column::<Int, Empty>(1, &vec![Empty, Empty, Empty]));
    assert!(buf.data.is_empty());
    assert_eq!(buf.lens, vec![0, 0, 0]);
    assert_eq!(buf.offsets, vec![0, 0, 0]);
}

#[test]
fn variable_length_rows_are_packed() {
    let long = "a value longer than the first slot that is tried";
    assert!(long.len() > CHUNK_SIZE);
    let buf = ok(bind_column::<Chr, Text>(5, &vec![Text("ab"), Text(""), Text(long), Text("xyz")]));
    let mut expected = b"ab".to_vec();
    expected.extend_from_slice(long.as_bytes());
    expected.extend_from_slice(b"xyz");
    assert_eq!(buf.data, expected);
    assert_eq!(buf.lens, vec![2, 0, long.len() as u16, 3]);
    assert_eq!(buf.offsets, vec![0, 2, 2, 2 + long.len()]);
    assert_eq!(buf.slot_size, None);
    assert_eq!(buf.sqlt, SQLT_CHR);
}

#[test]
fn every_row_shares_the_tag() {
    let values: Vec<i32> = (0..1000).collect();
    let buf = ok(bind_column::<Int, i32>(9, &values));
    assert_eq!(buf.sqlt, SQLT_INT);
    assert_eq!(buf.data.len(), 4000);
    assert_eq!(buf.lens.len(), 1000);
    for (i, v) in values.iter().enumerate() {
        assert_eq!(buf.offsets[i], 4 * i);
        assert_eq!(read_i32(&buf.data[4 * i..]), Some(*v));
    }
}

#[test]
fn write_stays_within_exact_slot() {
    let mut slot = [0u8; 2];
    let n = <i16 as AsOci<Int>>::oci_write(&-300, &mut slot).unwrap();
    assert!(n as usize <= slot.len());
    assert_eq!(slot, (-300i16).to_le_bytes());
    let mut slot = [0u8; 4];
    let n = <i32 as AsOci<Int>>::oci_write(&i32::MIN, &mut slot).unwrap();
    assert_eq!(n, 4);
    assert_eq!(slot, i32::MIN.to_le_bytes());
}

#[test]
fn short_slot_is_left_alone() {
    let mut slot = [7u8; 3];
    assert_eq!(<i32 as AsOci<Int>>::oci_write(&1, &mut slot), Ok(4));
    assert_eq!(slot, [7u8; 3]);
}

#[test]
fn write_leaves_rest_of_slot() {
    let mut slot = [9u8; 6];
    assert_eq!(<i16 as AsOci<Int>>::oci_write(&0x0102, &mut slot), Ok(2));
    assert_eq!(slot, [2, 1, 9, 9, 9, 9]);
}

#[test]
fn every_i16_round_trips() {
    for x in i16::MIN..=i16::MAX {
        let mut slot = [0u8; 2];
        assert_eq!(<i16 as AsOci<Int>>::oci_write(&x, &mut slot), Ok(2));
        assert_eq!(read_i16(&slot), Some(x));
    }
}

#[test]
fn i32_round_trips() {
    for x in [i32::MIN, -65536, -5, -1, 0, 1, 10, 255, 256, 65535, 1 << 24, i32::MAX] {
        let mut slot = [0u8; 4];
        assert_eq!(<i32 as AsOci<Int>>::oci_write(&x, &mut slot), Ok(4));
        assert_eq!(read_i32(&slot), Some(x));
    }
}

#[test]
fn readers_need_enough_bytes() {
    assert_eq!(read_i32(&[1, 2, 3]), None);
    assert_eq!(read_i16(&[1]), None);
    assert_eq!(read_i32(&[0x78, 0x56, 0x34, 0x12, 0xff]), Some(0x12345678));
    assert_eq!(read_i16(&[0xff, 0xff]), Some(-1));
}

#[test]
fn rewriting_gives_identical_bytes() {
    let mut a = [0u8; 4];
    let mut b = [0u8; 4];
    <i32 as AsOci<Int>>::oci_write(&-123456, &mut a).unwrap();
    <i32 as AsOci<Int>>::oci_write(&-123456, &mut b).unwrap();
    assert_eq!(a, b);
    <i32 as AsOci<Int>>::oci_write(&-123456, &mut a).unwrap();
    assert_eq!(a, b);
    let first = ok(bind_column::<Int, i16>(1, &vec![3, -3]));
    let second = ok(bind_column::<Int, i16>(1, &vec![3, -3]));
    assert_eq!(first.data, second.data);
}
