use udd::text::{
    chars_of, copy_range, digit_char, ends_with, find, fitting, hex_digit, hex_pair, join,
    leading_whitespace, leading_word, parse_u16, push_chars, push_decimal, push_hex_byte,
    push_text, same_text, shorten, split_into, split_once, split_whitespace, starts_with,
    string_of, text_then, trailing_whitespace, trim, utf8_width,
};

const SAMPLES: [&str; 16] = [
    "",
    " ",
    "a",
    "  lead",
    "trail  ",
    "  both  ends  ",
    "one two\tthree\nfour",
    "\u{a0}no-break\u{a0}space\u{a0}",
    "\u{3000}wide\u{2003}gap\u{3000}",
    "k=v",
    "a=b=c",
    "=",
    "a,b,,c,",
    ",",
    "\u{e9}t\u{e9} \u{20ac} \u{1f600}",
    "tab\there",
];

fn text(chars: &[char]) -> String {
    chars.iter().collect()
}

fn texts(parts: &[Vec<char>]) -> Vec<String> {
    parts.iter().map(|p| p.iter().collect()).collect()
}

#[test]
fn characters_and_back() {
    for s in SAMPLES {
        let chars = chars_of(s);
        assert_eq!(chars, s.chars().collect::<Vec<char>>());
        assert_eq!(string_of(&chars), s);
        assert!(same_text(&chars, s));
        assert_eq!(text_then("x: ", &chars), format!("x: {}", s));
        assert_eq!(copy_range(&chars, 0, chars.len()), chars);
    }
    assert!(!same_text(&chars_of("ab"), "abc"));
    assert!(!same_text(&chars_of("abc"), "abd"));
    assert!(!same_text(&chars_of("abc"), ""));
    assert_eq!(copy_range(&chars_of("hello"), 1, 3), vec!['e', 'l']);
}

#[test]
fn trimming_agrees_with_std() {
    for s in SAMPLES {
        let chars = chars_of(s);
        assert_eq!(text(trim(&chars)), s.trim());
        assert_eq!(
            leading_whitespace(&chars, 0),
            s.chars().count() - s.trim_start().chars().count()
        );
        assert_eq!(trailing_whitespace(&chars), s.chars().count() - s.trim_end().chars().count());
    }
    let chars = chars_of("ab  cd");
    assert_eq!(leading_whitespace(&chars, 2), 2);
    assert_eq!(leading_whitespace(&chars, 6), 0);
    assert_eq!(leading_word(&chars, 0), 2);
    assert_eq!(leading_word(&chars, 2), 0);
    assert_eq!(leading_word(&chars, 4), 2);
}

#[test]
fn words_agree_with_std() {
    for s in SAMPLES {
        let expected: Vec<String> = s.split_whitespace().map(|w| w.to_string()).collect();
        assert_eq!(texts(&split_whitespace(&chars_of(s))), expected);
    }
}

#[test]
fn splitting_agrees_with_std() {
    for s in SAMPLES {
        let chars = chars_of(s);
        for mark in ['=', ' ', ','] {
            let got = split_once(&chars, mark).map(|(a, b)| (text(a), text(b)));
            let expected = s.split_once(mark).map(|(a, b)| (a.to_string(), b.to_string()));
            assert_eq!(got, expected);
            let mut pieces = vec![vec!['x']];
            split_into(&chars, mark, &mut pieces);
            let mut all = vec!["x".to_string()];
            all.extend(s.split(mark).map(|p| p.to_string()));
            assert_eq!(texts(&pieces), all);
            let at = s.chars().position(|c| c == mark).unwrap_or(s.chars().count());
            assert_eq!(find(&chars, 0, mark), at);
        }
    }
    assert_eq!(find(&chars_of("a=b=c"), 2, '='), 3);
    assert_eq!(find(&chars_of("a=b=c"), 4, '='), 5);
}

#[test]
fn joining_agrees_with_std() {
    let lists: Vec<Vec<&str>> =
        vec![vec![], vec!["a"], vec![""], vec!["a", "b"], vec!["", "", ""], vec!["x", "", "yz"]];
    for list in lists {
        let parts: Vec<Vec<char>> = list.iter().map(|p| p.chars().collect()).collect();
        assert_eq!(text(&join(&parts, ' ')), list.join(" "));
        assert_eq!(text(&join(&parts, ',')), list.join(","));
    }
}

#[test]
fn prefixes_and_suffixes_agree_with_std() {
    let patterns = ["", "a", "session=", "true", "1", "\u{e9}", "  ", "k=v", "k=v "];
    for s in SAMPLES.iter().chain(["session=true", "session=1", "true", "1"].iter()) {
        let chars = chars_of(s);
        for p in patterns {
            assert_eq!(starts_with(&chars, p), s.starts_with(p));
            assert_eq!(ends_with(&chars, p), s.ends_with(p));
        }
    }
}

#[test]
fn hexadecimal_digits_agree_with_std() {
    for code in 0u32..300 {
        let c = char::from_u32(code).unwrap();
        assert_eq!(hex_digit(c), c.to_digit(16).map(|d| d as u8));
    }
    for hi in 0u8..128 {
        for lo in 0u8..128 {
            let pair: String = [hi as char, lo as char].iter().collect();
            assert_eq!(hex_pair(hi as char, lo as char), u8::from_str_radix(&pair, 16).ok());
        }
    }
    assert_eq!(hex_pair('\u{e9}', '1'), None);
    assert_eq!(hex_pair('1', '\u{ff11}'), None);
    assert_eq!(hex_pair('+', 'f'), Some(15));
    assert_eq!(hex_pair('7', 'F'), Some(0x7f));
}

#[test]
fn decimal_numbers_agree_with_std() {
    let inputs = [
        "", "0", "7", "42", "65535", "65536", "065535", "0000000000000000000001", "+", "+0",
        "+65535", "+65536", "++1", "-1", "-0", "1 ", " 1", "1a", "a1", "0x10", "1_000",
        "99999", "100000", "4294967296", "18446744073709551616", "\u{661}", "1\u{e9}",
    ];
    for s in inputs {
        assert_eq!(parse_u16(&chars_of(s)), s.parse::<u16>().ok());
    }
    for n in [0usize, 1, 9, 10, 11, 99, 100, 255, 65535, 65536, 1_000_000, usize::MAX] {
        let mut out = vec!['#'];
        push_decimal(&mut out, n);
        assert_eq!(text(&out), format!("#{}", n));
    }
}

#[test]
fn hexadecimal_bytes_agree_with_std() {
    for b in 0u8..=255 {
        let mut lower = vec!['<'];
        push_hex_byte(&mut lower, b, false);
        assert_eq!(text(&lower), format!("<{:02x}", b));
        let mut upper = Vec::new();
        push_hex_byte(&mut upper, b, true);
        assert_eq!(text(&upper), format!("{:02X}", b));
    }
    assert_eq!(digit_char(0, false), '0');
    assert_eq!(digit_char(9, true), '9');
    assert_eq!(digit_char(10, false), 'a');
    assert_eq!(digit_char(15, true), 'F');
}

#[test]
fn appending_text() {
    let mut out = vec!['a'];
    push_text(&mut out, "bc");
    push_chars(&mut out, &['d', '\u{e9}']);
    push_text(&mut out, "");
    assert_eq!(text(&out), "abcd\u{e9}");
}

#[test]
fn widths_agree_with_std() {
    for c in ['\0', 'a', '\u{7f}', '\u{80}', '\u{7ff}', '\u{800}', '\u{d7ff}', '\u{e000}',
        '\u{ffff}', '\u{10000}', '\u{10ffff}']
    {
        assert_eq!(utf8_width(c), c.len_utf8());
    }
}

#[test]
fn shortening_keeps_whole_characters() {
    assert_eq!(shorten("hello", 5, 2), "hello");
    assert_eq!(shorten("hello!", 5, 2), "he...");
    assert_eq!(shorten("hello!", 5, 0), "...");
    assert_eq!(shorten("", 0, 0), "");
    let wide = "\u{20ac}\u{20ac}\u{20ac}";
    assert_eq!(shorten(wide, 9, 4), wide);
    assert_eq!(shorten(wide, 8, 6), "\u{20ac}\u{20ac}...");
    assert_eq!(shorten(wide, 8, 5), "\u{20ac}...");
    assert_eq!(shorten(wide, 8, 2), "...");
    assert_eq!(fitting(&chars_of("a\u{e9}\u{20ac}b"), 0), 0);
    assert_eq!(fitting(&chars_of("a\u{e9}\u{20ac}b"), 1), 1);
    assert_eq!(fitting(&chars_of("a\u{e9}\u{20ac}b"), 2), 1);
    assert_eq!(fitting(&chars_of("a\u{e9}\u{20ac}b"), 3), 2);
    assert_eq!(fitting(&chars_of("a\u{e9}\u{20ac}b"), 5), 2);
    assert_eq!(fitting(&chars_of("a\u{e9}\u{20ac}b"), 6), 3);
    assert_eq!(fitting(&chars_of("a\u{e9}\u{20ac}b"), 7), 4);
    assert_eq!(fitting(&chars_of("a\u{e9}\u{20ac}b"), 100), 4);
    // A cut at a character boundary is the cut that slicing the bytes makes.
    let long = "x".repeat(60);
    assert_eq!(shorten(&long, 50, 47), format!("{}...", &long[..47]));
}
