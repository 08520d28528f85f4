use console_ghr::bt_addr::{octet_fields_sliceable, BtAddr};

fn host_little_endian() -> bool {
    u16::from_ne_bytes([1, 0]) == 1
}

#[test]
fn from_str_reads_upper_case_address() {
    let a = BtAddr::from_str("98:B6:E9:12:AB:0F").unwrap();
    assert_eq!(a, BtAddr([0x98, 0xB6, 0xE9, 0x12, 0xAB, 0x0F]));
}

#[test]
fn from_str_reads_lower_case_and_plus_sign() {
    let a = BtAddr::from_str("aa:bb:+c:0d:ee:ff").unwrap();
    assert_eq!(a, BtAddr([0xAA, 0xBB, 0x0C, 0x0D, 0xEE, 0xFF]));
}

#[test]
fn from_str_ignores_separators_and_trailing_text() {
    let a = BtAddr::from_str("01-23-45-67-89-AB and more").unwrap();
    assert_eq!(a, BtAddr([0x01, 0x23, 0x45, 0x67, 0x89, 0xAB]));
}

#[test]
fn from_str_rejects_non_hex_octet() {
    let e = BtAddr::from_str("01:23:4G:67:89:AB").unwrap_err();
    assert_eq!(*e.kind(), std::num::IntErrorKind::InvalidDigit);
}

#[test]
fn from_str_rejects_minus_sign() {
    assert!(BtAddr::from_str("01:23:45:67:89:-1").is_err());
}

#[test]
fn from_str_rejects_multibyte_character_in_octet() {
    // "é" takes two bytes and fills the third octet field on its own.
    assert!(BtAddr::from_str("01:23:é:67:89:AB").is_err());
}

#[test]
fn to_string_is_upper_case_with_colons() {
    let a = BtAddr([0x00, 0x1a, 0x7d, 0xda, 0x71, 0x13]);
    assert_eq!(a.to_string(), "00:1A:7D:DA:71:13");
}

#[test]
fn to_string_parses_back() {
    let a = BtAddr([0xff, 0x00, 0x10, 0x9c, 0x01, 0xfe]);
    let s = a.to_string();
    assert_eq!(BtAddr::from_str(&s).unwrap(), a);
}

#[test]
fn to_host_order_little_endian_reverses() {
    let a = BtAddr([1, 2, 3, 4, 5, 6]);
    assert_eq!(a.to_host_order(true), BtAddr([6, 5, 4, 3, 2, 1]));
    assert_eq!(a.to_host_order(false), a);
}

#[test]
fn to_host_order_twice_is_identity() {
    let a = BtAddr([0xde, 0xad, 0xbe, 0xef, 0x00, 0x01]);
    assert_eq!(a.to_host_order(true).to_host_order(true), a);
}

#[test]
fn convert_host_byteorder_follows_host() {
    let a = BtAddr([1, 2, 3, 4, 5, 6]);
    let expected = if host_little_endian() { BtAddr([6, 5, 4, 3, 2, 1]) } else { a };
    assert_eq!(a.convert_host_byteorder(), expected);
    assert_eq!(console_ghr::bt_addr::host_is_little_endian(), host_little_endian());
}

#[test]
fn octet_fields_sliceable_checks_length_and_boundaries() {
    assert!(octet_fields_sliceable("AA:BB:CC:DD:EE:FF"));
    assert!(!octet_fields_sliceable("AA:BB:CC:DD:EE:F"));
    // "é" spans bytes 6 and 7, so byte 7 is not a boundary.
    assert!(octet_fields_sliceable("01:23:é:67:89:AB"));
    assert!(!octet_fields_sliceable("01:23:4é:67:89:AB"));
}

#[test]
fn little_endian_from_reading_reads_one_as_little() {
    assert!(console_ghr::bt_addr::little_endian_from_reading(1));
    assert!(!console_ghr::bt_addr::little_endian_from_reading(256));
    assert_eq!(
        console_ghr::bt_addr::little_endian_from_reading(u16::from_ne_bytes([1, 0])),
        host_little_endian()
    );
}

#[test]
fn display_keeps_address_order() {
    let a = BtAddr([0x0a, 0xff, 0, 0, 0, 0]);
    let b = BtAddr([0x0b, 0x00, 0, 0, 0, 0]);
    assert!(a < b);
    assert!(a.to_string() < b.to_string());
}
