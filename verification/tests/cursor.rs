//! Cursor and primitive-decoder checks: bounds behaviour, endianness, and
//! the guarantee that a failed read leaves the offset unchanged.

use rodust_raknet::types::{Addr, DataError, SizedBuffer};

fn loaded(data: &[u8]) -> SizedBuffer<64> {
    let mut buf = SizedBuffer::<64>::new();
    buf.load(data).unwrap();
    buf
}

#[test]
fn fresh_buffer_is_empty() {
    let buf = SizedBuffer::<16>::new();
    assert!(buf.is_empty());
    assert_eq!(buf.len(), 0);
    assert_eq!(buf.offset(), 0);
    assert_eq!(buf.capacity(), 16);
}

#[test]
fn load_rewinds_and_fills() {
    let mut buf = SizedBuffer::<8>::new();
    buf.load(&[1, 2, 3]).unwrap();
    assert_eq!(buf.len(), 3);
    assert_eq!(buf.offset(), 0);
    assert_eq!(buf.take_u8().unwrap(), 1);
    buf.load(&[9]).unwrap();
    assert_eq!(buf.offset(), 0);
    assert_eq!(buf.take_u8().unwrap(), 9);
}

#[test]
fn load_rejects_oversized_data() {
    let mut buf = SizedBuffer::<4>::new();
    assert!(matches!(buf.load(&[0; 5]), Err(DataError::Overflow)));
    assert_eq!(buf.len(), 0);
}

#[test]
fn clear_resets_offset_and_length() {
    let mut buf = loaded(&[1, 2, 3]);
    buf.take_u8().unwrap();
    buf.clear();
    assert_eq!(buf.offset(), 0);
    assert_eq!(buf.len(), 0);
}

#[test]
fn advance_moves_both_counters_or_neither() {
    let mut buf = loaded(&[1, 2, 3]);
    buf.advance(2).unwrap();
    assert_eq!(buf.offset(), 2);
    assert_eq!(buf.len(), 1);
    assert!(matches!(buf.advance(2), Err(DataError::InsufficientByte)));
    assert_eq!(buf.offset(), 2);
    assert_eq!(buf.len(), 1);
}

#[test]
fn take_bytes_consumes_exactly() {
    let mut buf = loaded(&[1, 2, 3, 4]);
    assert_eq!(buf.take_bytes(3).unwrap(), vec![1, 2, 3]);
    assert_eq!(buf.offset(), 3);
    assert_eq!(buf.take_bytes(0).unwrap(), Vec::<u8>::new());
    assert!(matches!(
        buf.take_bytes(2),
        Err(DataError::InsufficientByte)
    ));
    assert_eq!(buf.offset(), 3);
}

#[test]
fn u8_and_bool() {
    let mut buf = loaded(&[0x2a, 0x00, 0x07]);
    assert_eq!(buf.take_u8().unwrap(), 0x2a);
    assert!(!buf.take_bool().unwrap());
    assert!(buf.take_bool().unwrap());
}

#[test]
fn u16_is_big_endian() {
    let mut buf = loaded(&[0x12, 0x34]);
    assert_eq!(buf.take_u16().unwrap(), 0x1234);
}

#[test]
fn u16_le_is_little_endian() {
    let mut buf = loaded(&[0x12, 0x34]);
    assert_eq!(buf.take_u16_le().unwrap(), 0x3412);
}

#[test]
fn i16_is_signed() {
    let mut buf = loaded(&[0xff, 0xff, 0x80, 0x00]);
    assert_eq!(buf.take_i16().unwrap(), -1);
    assert_eq!(buf.take_i16().unwrap(), i16::MIN);
}

#[test]
fn u24_little_endian_decodes_one() {
    let mut buf = loaded(&[0x01, 0x00, 0x00]);
    assert_eq!(buf.take_u24().unwrap(), 1);
    let mut buf = loaded(&[0xaf, 0xcb, 0x31]);
    assert_eq!(buf.take_u24().unwrap(), 0x31cbaf);
}

#[test]
fn u32_big_endian_decodes_one() {
    let mut buf = loaded(&[0x00, 0x00, 0x00, 0x01]);
    assert_eq!(buf.take_u32().unwrap(), 1);
}

#[test]
fn i64_is_signed_big_endian() {
    let mut buf = loaded(&[0xff, 0xff, 0xff, 0xff, 0xff, 0xff, 0xff, 0xff]);
    assert_eq!(buf.take_i64().unwrap(), -1);
    let mut buf = loaded(&[0x00, 0x00, 0x00, 0x00, 0x00, 0x00, 0x01, 0x02]);
    assert_eq!(buf.take_i64().unwrap(), 0x0102);
}

#[test]
fn magic_is_an_opaque_token() {
    let data: Vec<u8> = (0..16).collect();
    let mut buf = loaded(&data);
    let magic = buf.take_magic().unwrap();
    assert_eq!(magic.0, data);
    assert!(buf.is_empty());
}

#[test]
fn time_decodes_milliseconds() {
    let mut buf = loaded(&[0x00, 0x00, 0x00, 0x00, 0x00, 0x00, 0x00, 0x2a]);
    assert_eq!(buf.take_time().unwrap(), 42);
}

#[test]
fn negative_time_is_invalid_and_restores() {
    let mut buf = loaded(&[0xff; 8]);
    assert!(matches!(buf.take_time(), Err(DataError::InvalidTime)));
    assert_eq!(buf.offset(), 0);
    assert_eq!(buf.len(), 8);
}

#[test]
fn string_with_prefix_five_is_paula() {
    let mut buf = loaded(&[0x00, 0x05, b'P', b'a', b'u', b'l', b'a']);
    assert_eq!(buf.take_str().unwrap(), "Paula");
    assert!(buf.is_empty());
}

#[test]
fn string_prefix_exceeding_remaining_fails() {
    let mut buf = loaded(&[0x00, 0x09, b'P', b'a', b'u', b'l', b'a']);
    assert!(matches!(buf.take_str(), Err(DataError::InsufficientByte)));
    assert_eq!(buf.offset(), 0);
    assert_eq!(buf.len(), 7);
}

#[test]
fn string_must_be_utf8() {
    let mut buf = loaded(&[0x00, 0x02, 0xff, 0xfe]);
    assert!(matches!(buf.take_str(), Err(DataError::Utf8Error)));
    assert_eq!(buf.offset(), 0);
    assert_eq!(buf.len(), 4);
}

#[test]
fn address_v4_decodes_ip_and_port() {
    let mut buf = loaded(&[4, 127, 0, 0, 1, 0x1f, 0x90]);
    let addr = buf.take_address().unwrap();
    match addr {
        Addr::V4 { ip, port } => {
            assert_eq!(ip, vec![127, 0, 0, 1]);
            assert_eq!(port, 8080);
        },
        Addr::V6 { .. } => panic!("wrong family"),
    }
    assert!(buf.is_empty());
}

#[test]
fn address_v6_layout_and_little_endian_port() {
    let mut data = vec![6, 0xaa, 0xbb, 0x90, 0x1f, 0, 0, 0, 0];
    let ip: Vec<u8> = (1..=16).collect();
    data.extend_from_slice(&ip);
    data.extend_from_slice(&[9, 9, 9, 9]);
    let mut buf = loaded(&data);
    let addr = buf.take_address().unwrap();
    match addr {
        Addr::V6 { ip: got, port } => {
            assert_eq!(got, ip);
            assert_eq!(port, 8080);
        },
        Addr::V4 { .. } => panic!("wrong family"),
    }
    assert!(buf.is_empty());
}

#[test]
fn address_unknown_family_fails_and_restores() {
    let mut buf = loaded(&[5, 1, 2, 3, 4, 0, 0]);
    assert!(matches!(
        buf.take_address(),
        Err(DataError::UnsupportedIpv(5))
    ));
    assert_eq!(buf.offset(), 0);
    assert_eq!(buf.len(), 7);
}

#[test]
fn short_reads_fail_with_offset_unchanged() {
    let mut buf = loaded(&[]);
    assert!(matches!(buf.take_u8(), Err(DataError::InsufficientByte)));
    assert_eq!(buf.offset(), 0);

    let mut buf = loaded(&[1]);
    assert!(matches!(buf.take_u16(), Err(DataError::InsufficientByte)));
    assert!(matches!(
        buf.take_u16_le(),
        Err(DataError::InsufficientByte)
    ));
    assert!(matches!(buf.take_i16(), Err(DataError::InsufficientByte)));
    assert_eq!(buf.offset(), 0);

    let mut buf = loaded(&[1, 2]);
    assert!(matches!(buf.take_u24(), Err(DataError::InsufficientByte)));
    assert_eq!(buf.offset(), 0);

    let mut buf = loaded(&[1, 2, 3]);
    assert!(matches!(buf.take_u32(), Err(DataError::InsufficientByte)));
    assert_eq!(buf.offset(), 0);

    let mut buf = loaded(&[1, 2, 3, 4, 5, 6, 7]);
    assert!(matches!(buf.take_i64(), Err(DataError::InsufficientByte)));
    assert!(matches!(buf.take_time(), Err(DataError::InsufficientByte)));
    assert_eq!(buf.offset(), 0);

    let mut buf = loaded(&[0; 15]);
    assert!(matches!(
        buf.take_magic(),
        Err(DataError::InsufficientByte)
    ));
    assert_eq!(buf.offset(), 0);

    let mut buf = loaded(&[0x00]);
    assert!(matches!(buf.take_str(), Err(DataError::InsufficientByte)));
    assert_eq!(buf.offset(), 0);

    let mut buf = loaded(&[4, 127, 0]);
    assert!(matches!(
        buf.take_address(),
        Err(DataError::InsufficientByte)
    ));
    assert_eq!(buf.offset(), 0);
}
