use uprotocol_uri::decimal::{parse_decimal_u32, push_decimal};
use uprotocol_uri::text::{
    char_is_whitespace, chars_of, find_char, string_of, text_is_blank, trimmed,
};
use uprotocol_uri::uri::UUri;

#[test]
fn pattern_split_gives_the_pieces() {
    assert_eq!(UUri::pattern_split("/body.access/1/door", '/'), vec!["", "body.access", "1", "door"]);
    assert_eq!(UUri::pattern_split("a", '/'), vec!["a"]);
    assert_eq!(UUri::pattern_split("//a//b", '/'), vec!["", "", "a", "", "b"]);
}

#[test]
fn pattern_split_drops_empty_pieces_at_the_end_only() {
    assert_eq!(UUri::pattern_split("/a//", '/'), vec!["", "a"]);
    assert_eq!(UUri::pattern_split("//", '/'), Vec::<String>::new());
    assert_eq!(UUri::pattern_split("", '/'), Vec::<String>::new());
    assert_eq!(UUri::pattern_split("a.b.", '.'), vec!["a", "b"]);
}

#[test]
fn pattern_split_of_text_beyond_ascii() {
    assert_eq!(UUri::pattern_split("/tür/é", '/'), vec!["", "tür", "é"]);
}

#[test]
fn chars_and_strings() {
    let v = chars_of("a/é/c");
    assert_eq!(v, vec!['a', '/', 'é', '/', 'c']);
    assert_eq!(string_of(&v, 2, 5), "é/c");
    assert_eq!(string_of(&v, 3, 3), "");
    assert_eq!(find_char(&v, 0, '/'), 1);
    assert_eq!(find_char(&v, 2, '/'), 3);
    assert_eq!(find_char(&v, 4, '/'), 5);
    assert_eq!(find_char(&v, 5, '/'), 5);
}

#[test]
fn white_space_is_what_std_takes_for_it() {
    let mut n: u32 = 0;
    while n <= 0x3100 {
        if let Some(c) = char::from_u32(n) {
            assert_eq!(char_is_whitespace(c), c.is_whitespace());
        }
        n += 1;
    }
    assert!(!char_is_whitespace('\u{200B}'));
    assert!(!char_is_whitespace('\u{FEFF}'));
}

#[test]
fn trimmed_takes_white_space_from_both_ends() {
    assert_eq!(trimmed("  a b\t\n"), "a b");
    assert_eq!(trimmed("a"), "a");
    assert_eq!(trimmed(" \u{3000} "), "");
    assert_eq!(trimmed(""), "");
    assert_eq!(trimmed("\u{A0}x\u{2028}"), "x");
}

#[test]
fn blank_text() {
    assert!(text_is_blank(""));
    assert!(text_is_blank(" \t\r\n"));
    assert!(!text_is_blank(" a "));
}

#[test]
fn decimal_parse() {
    assert_eq!(parse_decimal_u32("0"), Some(0));
    assert_eq!(parse_decimal_u32("1"), Some(1));
    assert_eq!(parse_decimal_u32("+42"), Some(42));
    assert_eq!(parse_decimal_u32("0000000000000000000017"), Some(17));
    assert_eq!(parse_decimal_u32("4294967295"), Some(u32::MAX));
    assert_eq!(parse_decimal_u32("4294967296"), None);
    assert_eq!(parse_decimal_u32("99999999999999999999"), None);
    assert_eq!(parse_decimal_u32(""), None);
    assert_eq!(parse_decimal_u32("+"), None);
    assert_eq!(parse_decimal_u32("-1"), None);
    assert_eq!(parse_decimal_u32("++1"), None);
    assert_eq!(parse_decimal_u32("1+"), None);
    assert_eq!(parse_decimal_u32("12a"), None);
    assert_eq!(parse_decimal_u32(" 1"), None);
    assert_eq!(parse_decimal_u32("١"), None);
}

#[test]
fn decimal_parse_agrees_with_std() {
    for text in ["7", "+7", "007", "-7", "", "+", "4294967295", "4294967296", "1_0", "0x1"] {
        assert_eq!(parse_decimal_u32(text), text.parse::<u32>().ok());
    }
}

#[test]
fn decimal_text() {
    for n in [0u32, 7, 10, 99, 100, 1234567890, u32::MAX] {
        let mut out = String::from("v");
        push_decimal(&mut out, n);
        assert_eq!(out, format!("v{}", n));
        assert_eq!(parse_decimal_u32(&out[1..]), Some(n));
    }
}
