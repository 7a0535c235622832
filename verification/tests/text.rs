use tunnix::text::{
    chars_of, decimal_of, find, find_last, hex_of, lower_of, parse_u16, same, same_str,
    signed_decimal_of, starts_with, string_of, strip_prefix, trim,
};

#[test]
fn numbers_are_written_in_decimal_and_hexadecimal() {
    assert_eq!(decimal_of(0), "0");
    assert_eq!(decimal_of(u64::MAX), "18446744073709551615");
    assert_eq!(signed_decimal_of(-12), "-12");
    assert_eq!(signed_decimal_of(i32::MIN), "-2147483648");
    assert_eq!(signed_decimal_of(7), "7");
    assert_eq!(hex_of(0xbeef, 4), "beef");
    assert_eq!(hex_of(0xbeef, 2), "ef");
    assert_eq!(hex_of(1, 0), "");
}

#[test]
fn ports_are_read() {
    let read = |s: &str| parse_u16(&chars_of(s));
    assert_eq!(read("0"), Some(0));
    assert_eq!(read("65535"), Some(65535));
    assert_eq!(read("+0080"), Some(80));
    for s in ["", "+", "65536", "99999999999999999999", "-1", "1 ", "\u{661}"] {
        assert_eq!(read(s), None);
    }
}

#[test]
fn characters_come_and_go() {
    let s = "a\u{e9}\u{1f600}";
    let chars = chars_of(s);
    assert_eq!(chars.len(), 3);
    assert_eq!(string_of(&chars), s);
    assert_eq!(string_of(&lower_of(&chars_of("AbZ[\u{c9}"))), "abz[\u{c9}");
}

#[test]
fn white_space_is_trimmed() {
    for s in ["", " ", " a b\t\n", "\u{a0}x\u{2003}", "\u{85}y\u{200b}", "\u{3000}"] {
        assert_eq!(string_of(trim(&chars_of(s))), s.trim());
    }
}

#[test]
fn texts_are_searched() {
    let s = chars_of("a:b:c");
    assert_eq!((find(&s, ':'), find_last(&s, ':')), (Some(1), Some(3)));
    assert_eq!((find(&s, 'x'), find_last(&s, 'x')), (None, None));
    assert!(starts_with(&s, &chars_of("a:")));
    assert!(!starts_with(&s, &chars_of("a:b:c:")));
    assert_eq!(strip_prefix(&s, "a:").map(string_of), Some("b:c".to_string()));
    assert!(strip_prefix(&s, "b").is_none());
    assert!(same(&s, &chars_of("a:b:c")));
    assert!(same_str("x", "x") && !same_str("x", "xy"));
}
