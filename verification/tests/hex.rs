use dicom_dictionary::hex::{hex_byte, hex_char, hex_digit, hex_word, is_upper_hex};

#[test]
fn hex_digit_reads_both_cases() {
    assert_eq!(hex_digit(b'0'), Some(0));
    assert_eq!(hex_digit(b'9'), Some(9));
    assert_eq!(hex_digit(b'a'), Some(10));
    assert_eq!(hex_digit(b'F'), Some(15));
    assert_eq!(hex_digit(b'g'), None);
    assert_eq!(hex_digit(b'x'), None);
    assert_eq!(hex_digit(b'/'), None);
    assert_eq!(hex_digit(b':'), None);
    assert_eq!(hex_digit(b'@'), None);
    assert_eq!(hex_digit(b'`'), None);
}

#[test]
fn hex_byte_and_word_read_at_an_offset() {
    assert_eq!(hex_byte(b"xxA7", 2), Some(0xA7));
    assert_eq!(hex_byte(b"A7", 0), Some(0xA7));
    assert_eq!(hex_byte(b"Ax", 0), None);
    assert_eq!(hex_word(b"(7fE0,0010)", 1), Some(0x7FE0));
    assert_eq!(hex_word(b"(7fE0,0010)", 6), Some(0x0010));
    assert_eq!(hex_word(b"12x4", 0), None);
}

#[test]
fn hex_char_writes_capital_digits() {
    assert_eq!(hex_char(0), b'0');
    assert_eq!(hex_char(9), b'9');
    assert_eq!(hex_char(10), b'A');
    assert_eq!(hex_char(15), b'F');
    assert!(is_upper_hex(b'A'));
    assert!(is_upper_hex(b'7'));
    assert!(!is_upper_hex(b'a'));
    assert!(!is_upper_hex(b'G'));
}
