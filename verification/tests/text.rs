use ariane::utils::lexical::bytes_le;
use ariane::utils::text::{
    ascii_string, bytes_eq, clone_strings, contains_text, format_decimal, occurs_at_position,
    occurs_in, parse_decimal,
};

#[test]
fn decimal_numeral_is_read() {
    assert_eq!(parse_decimal(b"0"), Some(0));
    assert_eq!(parse_decimal(b"42"), Some(42));
    assert_eq!(parse_decimal(b"007"), Some(7));
    assert_eq!(parse_decimal(b"18446744073709551615"), Some(u64::MAX));
    assert_eq!(parse_decimal(b"18446744073709551616"), None);
    assert_eq!(parse_decimal(b"99999999999999999999"), None);
    assert_eq!(parse_decimal(b""), None);
    assert_eq!(parse_decimal(b"+1"), None);
    assert_eq!(parse_decimal(b"-1"), None);
    assert_eq!(parse_decimal(b"1a"), None);
    assert_eq!(parse_decimal(b" 1"), None);
}

#[test]
fn number_is_written_in_decimal() {
    assert_eq!(format_decimal(0), b"0");
    assert_eq!(format_decimal(9), b"9");
    assert_eq!(format_decimal(10), b"10");
    assert_eq!(format_decimal(1_072), b"1072");
    assert_eq!(format_decimal(u64::MAX), b"18446744073709551615");
}

#[test]
fn written_number_is_read_back() {
    for number in [0u64, 1, 9, 10, 99, 100, 12_345, u64::MAX - 1, u64::MAX] {
        assert_eq!(parse_decimal(&format_decimal(number)), Some(number));
    }
}

#[test]
fn ascii_bytes_spell_their_characters() {
    assert_eq!(ascii_string(b"aho-corasick"), "aho-corasick");
    assert_eq!(ascii_string(b""), "");
    assert_eq!(ascii_string(&[0x7f, 0x00, 0x41]), "\u{7f}\u{0}A");
}

#[test]
fn pattern_is_found_where_it_occurs() {
    assert!(occurs_at_position(b"hello world", b"world", 6));
    assert!(!occurs_at_position(b"hello world", b"world", 5));
    assert!(!occurs_at_position(b"hello world", b"world", 7));
    assert!(!occurs_at_position(b"hello world", b"world", 100));
    assert!(occurs_at_position(b"hello", b"", 5));
    assert!(!occurs_at_position(b"hello", b"", 6));
    assert!(occurs_in(b"lib.rs", b".rs"));
    assert!(occurs_in(b".rs", b".rs"));
    assert!(!occurs_in(b"lib.r", b".rs"));
    assert!(!occurs_in(b"", b".rs"));
    assert!(occurs_in(b"", b""));
}

#[test]
fn byte_strings_are_ordered_as_in_a_dictionary() {
    assert!(bytes_le(b"", b""));
    assert!(bytes_le(b"", b"a"));
    assert!(!bytes_le(b"a", b""));
    assert!(bytes_le(b"abc", b"abc"));
    assert!(bytes_le(b"abc", b"abd"));
    assert!(!bytes_le(b"abd", b"abc"));
    assert!(bytes_le(b"ab", b"abc"));
    assert!(!bytes_le(b"abc", b"ab"));
    assert!(bytes_le(b"Z", b"a"));
    assert!(bytes_le(&[0x7f], &[0x80]));
}

#[test]
fn lists_of_strings_are_searched_and_copied() {
    let list = vec!["std".to_string(), "alloc".to_string()];
    assert!(contains_text(&list, &"alloc".to_string()));
    assert!(!contains_text(&list, &"allo".to_string()));
    assert_eq!(clone_strings(&list), list);
    assert!(bytes_eq(b"abc", b"abc"));
    assert!(!bytes_eq(b"abc", b"abd"));
    assert!(!bytes_eq(b"abc", b"ab"));
    assert!(bytes_eq(b"", b""));
}
