use parsenic::{Read, Reader};
use png_chunks::parsing::strz;

fn lex(bytes: &[u8]) -> (String, usize) {
    let mut reader = Reader::new(bytes);
    let text = strz(&mut reader);
    (text, reader.remaining())
}

#[test]
fn strz_stops_at_the_zero_byte() {
    assert_eq!(lex(b"Title\0rest"), ("Title".to_string(), 4));
    assert_eq!(lex(b"\0rest"), (String::new(), 4));
    assert_eq!(lex(b"a\0"), ("a".to_string(), 0));
}

#[test]
fn strz_stops_where_the_input_ends() {
    assert_eq!(lex(b"Title"), ("Title".to_string(), 0));
    assert_eq!(lex(b""), (String::new(), 0));
}

#[test]
fn strz_rebuilds_a_three_byte_character() {
    assert_eq!(lex(&[0xE2, 0x82, 0xAC, 0]), ("\u{20AC}".to_string(), 0));
    assert_eq!(lex(&[b'a', 0xE2, 0x82, 0xAC, b'b', 0, 1]), ("a\u{20AC}b".to_string(), 1));
}

#[test]
fn strz_rebuilds_characters_of_every_width() {
    let text = "A\u{e9}\u{20AC}\u{1F600}z";
    let mut bytes = text.as_bytes().to_vec();
    bytes.push(0);
    bytes.extend_from_slice(&[1, 2, 3]);
    assert_eq!(lex(&bytes), (text.to_string(), 3));
}

#[test]
fn strz_replaces_one_invalid_byte_and_goes_on() {
    assert_eq!(lex(&[0xFF, b'a', 0]), ("\u{FFFD}a".to_string(), 0));
    assert_eq!(lex(&[b'a', 0x80, b'b', 0, 9]), ("a\u{FFFD}b".to_string(), 1));
    assert_eq!(lex(&[0xFF, 0xFF]), ("\u{FFFD}\u{FFFD}".to_string(), 0));
}

#[test]
fn strz_drops_the_bytes_of_a_broken_sequence_together() {
    assert_eq!(lex(&[0xC3, b'A', b'B', 0]), ("\u{FFFD}B".to_string(), 0));
    assert_eq!(lex(&[0xE0, 0x80, b'x', 0]), ("\u{FFFD}x".to_string(), 0));
    assert_eq!(lex(&[0xF0, 0x90, 0x80, b'A', b'!', 0]), ("\u{FFFD}!".to_string(), 0));
}

#[test]
fn strz_drops_a_sequence_that_the_end_cuts_short() {
    assert_eq!(lex(&[b'a', 0xE2, 0x82, 0, 7]), ("a".to_string(), 1));
    assert_eq!(lex(&[b'a', 0xE2, 0x82]), ("a".to_string(), 0));
    assert_eq!(lex(&[0xF0, 0x9F, 0x98]), (String::new(), 0));
}

#[test]
fn strz_reads_strings_one_after_another() {
    let mut reader = Reader::new(b"one\0two\0\0four");
    assert_eq!(strz(&mut reader), "one");
    assert_eq!(strz(&mut reader), "two");
    assert_eq!(strz(&mut reader), "");
    assert_eq!(strz(&mut reader), "four");
    assert_eq!(strz(&mut reader), "");
    assert_eq!(reader.remaining(), 0);
}
