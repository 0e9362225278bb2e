use rjvm::cursor::Cursor;
use rjvm::cursor::Error;

#[test]
fn read_exactly_remaining_succeeds() {
    let data = [1u8, 2, 3];
    let mut cursor = Cursor::new(&data);
    let taken = cursor.read_bytes(3).unwrap();
    assert_eq!(taken, vec![1u8, 2, 3]);
}

#[test]
fn read_one_past_end_fails_with_remaining() {
    let data = [1u8, 2, 3];
    let mut cursor = Cursor::new(&data);
    let taken = cursor.read_bytes(3).unwrap();
    assert_eq!(taken.len(), 3);
    let err = cursor.read_bytes(1).unwrap_err();
    assert_eq!(err, Error::ReadPastEnd { tried: 1, left: 0 });
}

#[test]
fn read_more_than_buffer_fails_without_moving() {
    let data = [1u8, 2, 3];
    let mut cursor = Cursor::new(&data);
    let err = cursor.read_bytes(4).unwrap_err();
    assert_eq!(err, Error::ReadPastEnd { tried: 4, left: 3 });
    // The failed read consumed nothing: the whole buffer is still there.
    let taken = cursor.read_bytes(3).unwrap();
    assert_eq!(taken, vec![1u8, 2, 3]);
}

#[test]
fn read_integer_u8() {
    let data = [0xABu8];
    let mut cursor = Cursor::new(&data);
    let value: u8 = cursor.read_integer().unwrap();
    assert_eq!(value, 0xAB);
}

#[test]
fn read_integer_u16_is_big_endian() {
    let data = [0x12u8, 0x34];
    let mut cursor = Cursor::new(&data);
    let value: u16 = cursor.read_integer().unwrap();
    assert_eq!(value, 0x1234);
}

#[test]
fn read_integer_u32_is_big_endian() {
    let data = [0xCAu8, 0xFE, 0xBA, 0xBE];
    let mut cursor = Cursor::new(&data);
    let value: u32 = cursor.read_integer().unwrap();
    assert_eq!(value, 0xCAFE_BABE);
}

#[test]
fn read_integer_past_end_reports_width_and_remaining() {
    let data = [0x12u8, 0x34, 0x56];
    let mut cursor = Cursor::new(&data);
    let err = cursor.read_integer::<u32>().unwrap_err();
    assert_eq!(err, Error::ReadPastEnd { tried: 4, left: 3 });
    // The cursor did not move: a narrower read still sees all three bytes.
    let value: u16 = cursor.read_integer().unwrap();
    assert_eq!(value, 0x1234);
}

#[test]
fn reads_advance_in_order() {
    let data = [0x01u8, 0x00, 0x02, 0xFF, 0xEE];
    let mut cursor = Cursor::new(&data);
    let tag: u8 = cursor.read_integer().unwrap();
    assert_eq!(tag, 1);
    let length: u16 = cursor.read_integer().unwrap();
    assert_eq!(length, 2);
    let payload = cursor.read_bytes(2).unwrap();
    assert_eq!(payload, vec![0xFFu8, 0xEE]);
    let err = cursor.read_integer::<u8>().unwrap_err();
    assert_eq!(err, Error::ReadPastEnd { tried: 1, left: 0 });
}
