use smech_farm::text::{
    contains, ends_with, head, integer, join, number, pad, parse_byte, repeat, same, split,
    splitn, starts_with, strip, tail, trim,
};

#[test]
fn trim_takes_unicode_white_space() {
    assert_eq!(trim("  a b\r\n"), "a b");
    assert_eq!(trim("\u{3000}x\u{a0}\u{85}"), "x");
    assert_eq!(trim(" \t\n"), "");
    assert_eq!(trim("\u{200b}x"), "\u{200b}x");
}

#[test]
fn trim_agrees_with_std_on_every_white_character() {
    for n in 0..0x3100u32 {
        if let Some(c) = char::from_u32(n) {
            let s = format!("{}x{}", c, c);
            assert_eq!(trim(&s), s.trim(), "{:x}", n);
        }
    }
}

#[test]
fn strip_takes_a_set_of_characters() {
    assert_eq!(strip("[{\"a\"}]", "[]"), "{\"a\"}");
    assert_eq!(strip("{}{", "{}"), "");
    assert_eq!(strip("a{b}c", "{}"), "a{b}c");
}

#[test]
fn splitting_keeps_empty_pieces() {
    assert_eq!(split("a,,b,", ","), vec!["a", "", "b", ""]);
    assert_eq!(split("", ","), vec![""]);
    assert_eq!(split("x},{y", "},{"), vec!["x", "y"]);
    assert_eq!(splitn("a b c d e", " ", 4), vec!["a", "b", "c", "d e"]);
    assert_eq!(splitn("a b", " ", 1), vec!["a b"]);
}

#[test]
fn finding_and_cutting() {
    assert!(contains("WireGuard not enabled", "not enabled"));
    assert!(!contains("abc", "abcd"));
    assert!(contains("abc", ""));
    assert_eq!(head("10.99.0.1/24", "/"), "10.99.0.1");
    assert_eq!(head("plain", "/"), "plain");
    assert_eq!(tail("a\r\n\r\nb\r\n\r\nc", "\r\n\r\n"), "b\r\n\r\nc");
    assert_eq!(tail("none", "\r\n\r\n"), "");
    assert!(starts_with("/ui/x", "/ui"));
    assert!(!starts_with("/u", "/ui"));
    assert!(ends_with("a.tar.xz", ".tar.xz"));
    assert!(!ends_with("xz", ".tar.xz"));
    assert!(same("é", "é"));
    assert!(!same("e", "é"));
}

#[test]
fn numbers_are_written_in_decimal() {
    assert_eq!(number(0), "0");
    assert_eq!(number(u64::MAX), "18446744073709551615");
    assert_eq!(integer(-1), "-1");
    assert_eq!(integer(i64::MIN), "-9223372036854775808");
    assert_eq!(integer(1700000000), "1700000000");
}

#[test]
fn padding_and_repeating_count_characters() {
    assert_eq!(pad("ab", 4), "ab  ");
    assert_eq!(pad("abcd", 3), "abcd");
    assert_eq!(pad("é", 2), "é ");
    assert_eq!(repeat('-', 3), "---");
    let list = vec!["a".to_string(), "b".to_string(), "c".to_string()];
    assert_eq!(join(&list, ","), "a,b,c");
    assert_eq!(join(&Vec::new(), ","), "");
}

#[test]
fn bytes_are_parsed_as_std_parses_them() {
    for s in ["0", "255", "256", "+7", "-1", "", "+", "007", "1a", " 1", "99999999999"] {
        assert_eq!(parse_byte(s), s.parse::<u8>().ok(), "{:?}", s);
    }
}
