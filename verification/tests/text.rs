use hoyo_gacha::text::{
    decimal_len, is_white_space_char, parse_u32, push_decimal, push_signed_decimal,
    push_zero_padded, str_eq, str_lex_le, trim_str,
};

#[test]
fn white_space_and_trim() {
    assert!(is_white_space_char(' '));
    assert!(is_white_space_char('\u{3000}'));
    assert!(is_white_space_char('\u{85}'));
    assert!(!is_white_space_char('a'));
    assert!(!is_white_space_char('\u{200B}'));
    for c in ['\t', '\n', ' ', '\u{a0}', '\u{2003}', '\u{feff}', 'x'] {
        assert_eq!(is_white_space_char(c), c.is_whitespace());
    }
    assert_eq!(trim_str("  a b \n"), "a b");
    assert_eq!(trim_str("\u{3000}刻晴\u{3000}"), "刻晴");
    assert_eq!(trim_str("   "), "");
    assert_eq!(trim_str(""), "");
}

#[test]
fn equality_and_order() {
    assert!(str_eq("刻晴", "刻晴"));
    assert!(!str_eq("a", "ab"));
    assert!(str_lex_le("Character", "Weapon"));
    assert!(!str_lex_le("Weapon", "Character"));
    assert!(str_lex_le("ab", "abc"));
    assert!(str_lex_le("", ""));
    assert!(!str_lex_le("b", "ab"));
    assert_eq!(str_lex_le("Z", "刻"), "Z" <= "刻");
}

#[test]
fn decimal_formatting() {
    let mut s = String::new();
    push_decimal(&mut s, 0);
    assert_eq!(s, "0");
    let mut s = String::from("n=");
    push_decimal(&mut s, u64::MAX);
    assert_eq!(s, "n=18446744073709551615");
    let mut s = String::new();
    push_signed_decimal(&mut s, i64::MIN);
    assert_eq!(s, "-9223372036854775808");
    let mut s = String::new();
    push_zero_padded(&mut s, 42, 9);
    assert_eq!(s, "000000042");
    let mut s = String::new();
    push_zero_padded(&mut s, 1234567890, 9);
    assert_eq!(s, "1234567890");
    assert_eq!(decimal_len(0), 1);
    assert_eq!(decimal_len(u64::MAX), 20);
}

#[test]
fn u32_parsing_like_std() {
    for s in ["0", "42", "+42", "007", "4294967295", "4294967296", "", "+", "-1", "1 ", "٣"] {
        assert_eq!(parse_u32(s), s.parse::<u32>().ok(), "{s:?}");
    }
}
