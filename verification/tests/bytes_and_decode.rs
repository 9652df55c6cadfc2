use mini_httpd::bytes::{joined, format_decimal, index_of, literal, remove_all, same_bytes,
    starts_with, trim, SP};
use mini_httpd::decode::{decode, READ_LIMIT};

#[test]
fn literal_gives_the_bytes_of_the_string() {
    assert_eq!(literal("GET /"), b"GET /".to_vec());
    assert_eq!(literal(""), Vec::<u8>::new());
}

#[test]
fn index_of_finds_the_first_occurrence() {
    assert_eq!(index_of(b"a:b:c", b':'), 1);
    assert_eq!(index_of(b":x", b':'), 0);
}

#[test]
fn index_of_is_the_length_when_absent() {
    assert_eq!(index_of(b"abc", b':'), 3);
    assert_eq!(index_of(b"", b':'), 0);
}

#[test]
fn starts_with_compares_the_prefix() {
    assert!(starts_with(b"/echo/abc", b"/echo/"));
    assert!(starts_with(b"/echo/", b"/echo/"));
    assert!(starts_with(b"abc", b""));
    assert!(!starts_with(b"/echo", b"/echo/"));
    assert!(!starts_with(b"/ecHo/abc", b"/echo/"));
}

#[test]
fn same_bytes_is_equality() {
    assert!(same_bytes(b"User-Agent", b"User-Agent"));
    assert!(!same_bytes(b"User-Agent", b"user-agent"));
    assert!(!same_bytes(b"User-Agent", b"User-Agent "));
    assert!(same_bytes(b"", b""));
}

#[test]
fn remove_all_drops_every_occurrence() {
    assert_eq!(remove_all(b" a b  c ", SP), b"abc".to_vec());
    assert_eq!(remove_all(b"abc", SP), b"abc".to_vec());
    assert_eq!(remove_all(b"   ", SP), Vec::<u8>::new());
}

#[test]
fn trim_removes_whitespace_at_both_ends_only() {
    assert_eq!(trim(b"  a b \t\r"), b"a b");
    assert_eq!(trim(b"a"), b"a");
    assert_eq!(trim(b" \t "), b"");
    assert_eq!(trim(b""), b"");
}

#[test]
fn format_decimal_writes_exact_digits() {
    assert_eq!(format_decimal(0), b"0".to_vec());
    assert_eq!(format_decimal(7), b"7".to_vec());
    assert_eq!(format_decimal(10), b"10".to_vec());
    assert_eq!(format_decimal(512), b"512".to_vec());
    assert_eq!(format_decimal(12345), b"12345".to_vec());
}

#[test]
fn joined_appends() {
    assert_eq!(joined(b"ab", b"cd"), b"abcd".to_vec());
    assert_eq!(joined(b"", b""), Vec::<u8>::new());
}

#[test]
fn decode_keeps_valid_text() {
    let input = "GET /echo/h\u{e9}llo HTTP/1.1\r\n\r\n".as_bytes();
    assert_eq!(decode(input), input.to_vec());
}

#[test]
fn decode_replaces_ill_formed_bytes() {
    assert_eq!(decode(&[b'a', 0xff, b'b']), vec![b'a', 0xef, 0xbf, 0xbd, b'b']);
}

#[test]
fn decode_clips_to_the_read_buffer() {
    let input = vec![b'x'; READ_LIMIT + 88];
    assert_eq!(decode(&input), vec![b'x'; READ_LIMIT]);
    let exact = vec![b'y'; READ_LIMIT];
    assert_eq!(decode(&exact), exact);
}

#[test]
fn decode_replaces_a_character_cut_by_the_buffer() {
    let mut input = vec![b'x'; READ_LIMIT - 1];
    input.extend_from_slice("\u{e9}".as_bytes());
    let mut expected = vec![b'x'; READ_LIMIT - 1];
    expected.extend_from_slice(&[0xef, 0xbf, 0xbd]);
    assert_eq!(decode(&input), expected);
}
