use rusty_spire::bytes::has_bytes;
use rusty_spire::bytes::read_bytes;
use rusty_spire::bytes::read_u16_be;
use rusty_spire::bytes::read_u16_le;
use rusty_spire::bytes::read_u16_ne;
use rusty_spire::bytes::read_u32_be;
use rusty_spire::bytes::read_u32_le;
use rusty_spire::bytes::read_u32_ne;
use rusty_spire::bytes::read_u64_be;
use rusty_spire::bytes::read_u64_le;
use rusty_spire::bytes::read_u64_ne;
use rusty_spire::bytes::read_u8;
use rusty_spire::bytes::slice_clamped;
use rusty_spire::bytes::u32_to_le_bytes;

const DATA: [u8; 10] = [0x01, 0x02, 0x03, 0x04, 0x05, 0x06, 0x07, 0x08, 0x09, 0x0a];

#[test]
fn little_and_big_endian_reads() {
    assert_eq!(read_u8(&DATA, 9), Some(0x0a));
    assert_eq!(read_u8(&DATA, 10), None);
    assert_eq!(read_u16_le(&DATA, 0), Some(0x0201));
    assert_eq!(read_u16_be(&DATA, 0), Some(0x0102));
    assert_eq!(read_u32_le(&DATA, 1), Some(0x05040302));
    assert_eq!(read_u32_be(&DATA, 1), Some(0x02030405));
    assert_eq!(read_u64_le(&DATA, 2), Some(0x0a09080706050403));
    assert_eq!(read_u64_be(&DATA, 2), Some(0x030405060708090a));
    assert_eq!(read_u64_le(&DATA, 3), None);
    assert_eq!(read_u32_be(&DATA, 7), None);
    assert_eq!(read_u16_le(&DATA, u64::MAX), None);
}

#[test]
fn native_order_reads_match_the_machine() {
    assert_eq!(read_u16_ne(&DATA, 4), Some(u16::from_ne_bytes([0x05, 0x06])));
    assert_eq!(read_u32_ne(&DATA, 4), Some(u32::from_ne_bytes([0x05, 0x06, 0x07, 0x08])));
    assert_eq!(
        read_u64_ne(&DATA, 1),
        Some(u64::from_ne_bytes([0x02, 0x03, 0x04, 0x05, 0x06, 0x07, 0x08, 0x09]))
    );
    assert_eq!(read_u32_ne(&DATA, 8), None);
    let x = 0xdead_beef_u32;
    assert_eq!(read_u32_ne(&x.to_ne_bytes(), 0), Some(x));
}

#[test]
fn byte_ranges() {
    assert!(has_bytes(&DATA, 0, 10));
    assert!(has_bytes(&DATA, 10, 0));
    assert!(!has_bytes(&DATA, 10, 1));
    assert!(!has_bytes(&DATA, 11, 0));
    assert!(!has_bytes(&DATA, 1, u64::MAX));
    assert_eq!(read_bytes(&DATA, 8, 2), Some(vec![0x09, 0x0a]));
    assert_eq!(read_bytes(&DATA, 8, 3), None);
    assert_eq!(slice_clamped(&DATA, 8, 5), &[0x09, 0x0a]);
    assert_eq!(slice_clamped(&DATA, 12, 5), &[] as &[u8]);
    assert_eq!(slice_clamped(&DATA, 2, u64::MAX), &DATA[2..]);
    assert_eq!(u32_to_le_bytes(0x11223344), [0x44, 0x33, 0x22, 0x11]);
}

#[test]
fn signed_decimal_of_the_extremes() {
    let mut s = String::new();
    rusty_spire::text::push_signed_decimal(&mut s, i64::MIN);
    assert_eq!(s, "-9223372036854775808");
    let mut t = String::from("x");
    rusty_spire::text::push_signed_decimal(&mut t, i64::MAX);
    assert_eq!(t, "x9223372036854775807");
}
