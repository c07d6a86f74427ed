use dicom_dictionary::text::{bytes_eq, find_byte, push_ascii, remove_char, split_chars, str_eq};

#[test]
fn remove_char_takes_out_each_occurrence() {
    assert_eq!(remove_char("Patient\u{200b}Name\u{200b}", '\u{200b}'), "PatientName");
    assert_eq!(remove_char("\u{200b}", '\u{200b}'), "");
    assert_eq!(remove_char("abc", '\u{200b}'), "abc");
    assert_eq!(remove_char("", 'a'), "");
    assert_eq!(remove_char("banana", 'a'), "bnn");
}

#[test]
fn split_chars_splits_by_characters() {
    assert_eq!(split_chars("OB or OW", 2), ("OB".to_string(), " or OW".to_string()));
    assert_eq!(split_chars("PN", 2), ("PN".to_string(), String::new()));
    assert_eq!(split_chars("U", 2), ("U".to_string(), String::new()));
    assert_eq!(split_chars("", 2), (String::new(), String::new()));
    assert_eq!(split_chars("é\u{200b}x", 2), ("é\u{200b}".to_string(), "x".to_string()));
    assert_eq!(split_chars("abc", 0), (String::new(), "abc".to_string()));
}

#[test]
fn equality_of_texts_and_bytes() {
    assert!(str_eq("RET", "RET"));
    assert!(!str_eq("RET", "RET "));
    assert!(!str_eq("RET", "ret"));
    assert!(str_eq("", ""));
    assert!(bytes_eq(b"table", b"table"));
    assert!(!bytes_eq(b"table", b"tbody"));
    assert!(!bytes_eq(b"table", b"tabl"));
}

#[test]
fn find_byte_gives_the_first_occurrence_in_the_part() {
    assert_eq!(find_byte(b"a,b,c", b',', 0, 5), 1);
    assert_eq!(find_byte(b"a,b,c", b',', 2, 5), 3);
    assert_eq!(find_byte(b"a,b,c", b',', 4, 5), 5);
    assert_eq!(find_byte(b"a,b,c", b',', 0, 1), 1);
    assert_eq!(find_byte(b"", b',', 0, 0), 0);
}

#[test]
fn push_ascii_appends_one_character() {
    let mut text = String::from("a");
    push_ascii(&mut text, b'(');
    push_ascii(&mut text, b'x');
    assert_eq!(text, "a(x");
}
