use udd::utils::{parse_hex, parse_text_with_escapes};

#[test]
fn hex_digits_in_pairs() {
    assert_eq!(parse_hex("deadbeef"), Ok(vec![0xde, 0xad, 0xbe, 0xef]));
    assert_eq!(parse_hex("DEADbeEF"), Ok(vec![0xde, 0xad, 0xbe, 0xef]));
    assert_eq!(parse_hex("00ff7f80"), Ok(vec![0x00, 0xff, 0x7f, 0x80]));
    assert_eq!(parse_hex(""), Ok(vec![]));
}

#[test]
fn hex_ignores_white_space() {
    assert_eq!(parse_hex(" de ad\tbe\nef "), Ok(vec![0xde, 0xad, 0xbe, 0xef]));
    assert_eq!(parse_hex("d e a d"), Ok(vec![0xde, 0xad]));
    assert_eq!(parse_hex("   "), Ok(vec![]));
    // No-break space and ideographic space are white space too.
    assert_eq!(parse_hex("a\u{a0}b\u{3000}"), Ok(vec![0xab]));
}

#[test]
fn hex_odd_number_of_digits() {
    assert_eq!(parse_hex("abc"), Err("odd number of hex digits".to_string()));
    assert_eq!(parse_hex("a"), Err("odd number of hex digits".to_string()));
    assert_eq!(parse_hex("zzz"), Err("odd number of hex digits".to_string()));
    // Three bytes of text.
    assert_eq!(parse_hex("\u{20ac}"), Err("odd number of hex digits".to_string()));
}

#[test]
fn hex_invalid_digit() {
    assert_eq!(parse_hex("zz"), Err("invalid digit found in string".to_string()));
    assert_eq!(parse_hex("abxy"), Err("invalid digit found in string".to_string()));
    assert_eq!(parse_hex("-1"), Err("invalid digit found in string".to_string()));
    assert_eq!(parse_hex("1+"), Err("invalid digit found in string".to_string()));
    assert_eq!(parse_hex("++"), Err("invalid digit found in string".to_string()));
    assert_eq!(parse_hex("\u{e9}"), Err("invalid digit found in string".to_string()));
    assert_eq!(parse_hex("ab\u{e9}"), Err("invalid digit found in string".to_string()));
    assert_eq!(parse_hex("a\u{e9}1"), Err("invalid digit found in string".to_string()));
}

#[test]
fn hex_plus_sign_and_one_digit() {
    assert_eq!(parse_hex("+f"), Ok(vec![0x0f]));
    assert_eq!(parse_hex("+0+9"), Ok(vec![0x00, 0x09]));
}

#[test]
fn text_without_escapes() {
    assert_eq!(parse_text_with_escapes("hello"), b"hello".to_vec());
    assert_eq!(parse_text_with_escapes(""), Vec::<u8>::new());
    assert_eq!(parse_text_with_escapes("a b"), b"a b".to_vec());
}

#[test]
fn text_named_escapes() {
    assert_eq!(parse_text_with_escapes("a\\nb"), vec![b'a', 0x0A, b'b']);
    assert_eq!(parse_text_with_escapes("\\r\\t"), vec![0x0D, 0x09]);
    assert_eq!(parse_text_with_escapes("\\0"), vec![0x00]);
    assert_eq!(parse_text_with_escapes("\\\\"), vec![0x5C]);
    assert_eq!(parse_text_with_escapes("\\\\n"), vec![0x5C, b'n']);
}

#[test]
fn text_hex_escapes() {
    assert_eq!(parse_text_with_escapes("\\x41"), vec![0x41]);
    assert_eq!(parse_text_with_escapes("\\X4a"), vec![0x4a]);
    assert_eq!(parse_text_with_escapes("\\xfFz"), vec![0xff, b'z']);
    assert_eq!(parse_text_with_escapes("\\x00\\x01"), vec![0x00, 0x01]);
    assert_eq!(parse_text_with_escapes("\\x+f"), vec![0x0f]);
}

#[test]
fn text_broken_hex_escapes_stay() {
    assert_eq!(parse_text_with_escapes("\\xZZ"), b"\\xZZ".to_vec());
    assert_eq!(parse_text_with_escapes("\\XZZ"), b"\\xZZ".to_vec());
    assert_eq!(parse_text_with_escapes("\\x4"), b"\\x4".to_vec());
    assert_eq!(parse_text_with_escapes("\\x"), b"\\x".to_vec());
    assert_eq!(parse_text_with_escapes("\\x4gh"), b"\\x4gh".to_vec());
    assert_eq!(parse_text_with_escapes("\\x\u{e9}"), vec![0x5C, 0x78, 0xC3, 0xA9]);
    assert_eq!(parse_text_with_escapes("\\x4\u{e9}!"), vec![0x5C, 0x78, b'4', 0xC3, 0xA9, b'!']);
}

#[test]
fn text_other_backslashes_stay() {
    assert_eq!(parse_text_with_escapes("\\q"), b"\\q".to_vec());
    assert_eq!(parse_text_with_escapes("\\"), b"\\".to_vec());
    assert_eq!(parse_text_with_escapes("a\\"), b"a\\".to_vec());
    assert_eq!(parse_text_with_escapes("\\N"), b"\\N".to_vec());
}

#[test]
fn text_keeps_the_low_byte_of_a_character() {
    assert_eq!(parse_text_with_escapes("\u{e9}"), vec![0xE9]);
    assert_eq!(parse_text_with_escapes("\u{20ac}"), vec![0xAC]);
    assert_eq!(parse_text_with_escapes("\u{1f600}"), vec![0x00]);
}
