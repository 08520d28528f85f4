use console_ghr::hexdump::{hexdump, hexdump_with_flags};

#[test]
fn hexdump_empty_buffer() {
    assert_eq!(hexdump(&[]), "");
}

#[test]
fn hexdump_short_line_is_padded() {
    let out = hexdump(b"Hi!");
    let expected = format!("48 69 21 {} Hi.\n", "   ".repeat(13));
    assert_eq!(out, expected);
}

#[test]
fn hexdump_full_line_and_remainder() {
    let buf: Vec<u8> = (0u8..17).map(|i| b'a' + i).collect();
    let out = hexdump(&buf);
    let first = "61 62 63 64 65 66 67 68 69 6a 6b 6c 6d 6e 6f 70  abcdefghijklmnop\n";
    let second = format!("71 {} q\n", "   ".repeat(15));
    assert_eq!(out, format!("{}{}", first, second));
}

#[test]
fn hexdump_non_alphanumeric_bytes_are_dots() {
    let out = hexdump(&[0x00, 0x20, 0x7f, 0x30, 0xe9, 0xd7]);
    // 0xe9 is 'é' (alphabetic), 0xd7 is '×' (not alphanumeric).
    let expected = format!("00 20 7f 30 e9 d7 {} ...0é.\n", "   ".repeat(10));
    assert_eq!(out, expected);
}

#[test]
fn hexdump_with_flags_uses_given_flags() {
    let out = hexdump_with_flags(&[0x41, 0x42], &[false, true]);
    let expected = format!("41 42 {} .B\n", "   ".repeat(14));
    assert_eq!(out, expected);
}
