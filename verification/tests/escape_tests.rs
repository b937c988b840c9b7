use rat::escape::convert_nonprinting;
use rat::escape::escape_nonprinting;
use rat::escape::_old_voption;
use rat::number::blank_prefix_bytes;
use rat::number::number_prefix_bytes;
use rat::textval::check_utf8;

fn encoded(b: u8) -> Vec<u8> {
    let mut out = Vec::new();
    convert_nonprinting(b, &mut out);
    out
}

#[test]
fn control_bytes_use_caret_notation() {
    assert_eq!(encoded(0), b"^@".to_vec());
    assert_eq!(encoded(1), b"^A".to_vec());
    assert_eq!(encoded(31), b"^_".to_vec());
    assert_eq!(encoded(127), b"^?".to_vec());
}

#[test]
fn printable_bytes_pass_through() {
    assert_eq!(encoded(32), b" ".to_vec());
    assert_eq!(encoded(65), b"A".to_vec());
    assert_eq!(encoded(126), b"~".to_vec());
}

#[test]
fn high_bytes_get_the_meta_prefix() {
    // 200 % 128 == 72 == 'H', a printable byte.
    assert_eq!(encoded(200), b"M-H".to_vec());
    // 137 % 128 == 9, a control byte, so the caret rule applies in turn.
    assert_eq!(encoded(137), b"M-^I".to_vec());
    assert_eq!(encoded(255), b"M-^?".to_vec());
    assert_eq!(encoded(128), b"M-^@".to_vec());
}

#[test]
fn tab_and_line_feed_are_never_escaped() {
    let line = vec![9u8, 10, 65, 0];
    assert_eq!(escape_nonprinting(&line), vec![9u8, 10, 65, 94, 64]);
}

#[test]
fn escaping_appends_after_existing_content() {
    let mut out = b"x".to_vec();
    convert_nonprinting(0, &mut out);
    assert_eq!(out, b"x^@".to_vec());
}

#[test]
fn old_voption_does_nothing() {
    _old_voption();
}

#[test]
fn number_prefix_right_aligns_in_six_columns() {
    assert_eq!(number_prefix_bytes(1), b"     1  ".to_vec());
    assert_eq!(number_prefix_bytes(42), b"    42  ".to_vec());
    assert_eq!(number_prefix_bytes(123456), b"123456  ".to_vec());
    assert_eq!(number_prefix_bytes(1234567), b"1234567  ".to_vec());
}

#[test]
fn blank_prefix_is_eight_spaces() {
    assert_eq!(blank_prefix_bytes(), b"        ".to_vec());
}

#[test]
fn utf8_check_accepts_well_formed_text() {
    assert!(check_utf8(&Vec::new()));
    assert!(check_utf8(&b"plain ascii".to_vec()));
    assert!(check_utf8(&"h\u{e9}llo \u{4e16}\u{754c} \u{1f600}".as_bytes().to_vec()));
    // U+10FFFF, the largest scalar.
    assert!(check_utf8(&vec![0xf4, 0x8f, 0xbf, 0xbf]));
}

#[test]
fn utf8_check_rejects_malformed_bytes() {
    // A lone continuation byte, a truncated sequence, an overlong
    // encoding, a surrogate, and a value beyond the last scalar.
    assert!(!check_utf8(&vec![0x80]));
    assert!(!check_utf8(&vec![0xc3]));
    assert!(!check_utf8(&vec![0xc0, 0x80]));
    assert!(!check_utf8(&vec![0xed, 0xa0, 0x80]));
    assert!(!check_utf8(&vec![0xf4, 0x90, 0x80, 0x80]));
    assert!(!check_utf8(&vec![0xff]));
    assert!(!check_utf8(&vec![0xe0, 0x80, 0x80]));
}
