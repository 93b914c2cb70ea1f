use rhythm_arena::text::{blank, char_is_space, hex16_string, push_decimal, str_eq, trim};

#[test]
fn white_space_matches_std() {
    for u in 0u32..=0x3100 {
        if let Some(c) = char::from_u32(u) {
            assert_eq!(char_is_space(c), c.is_whitespace(), "{u:#x}");
        }
    }
    for s in ["", "  a b  ", "\u{3000}x\u{2028}", "\t\n", "x"] {
        assert_eq!(trim(s), s.trim());
        assert_eq!(blank(s), s.trim().is_empty());
    }
}

#[test]
fn number_formatting() {
    for i in [0i64, 7, -7, 1234567890, i64::MIN, i64::MAX] {
        let mut s = String::from("n=");
        push_decimal(&mut s, i);
        assert_eq!(s, format!("n={i}"));
    }
    for x in [0u64, 1, 0xdead_beef, u64::MAX] {
        assert_eq!(hex16_string(x), format!("{x:016x}"));
    }
    assert!(str_eq("ab", "ab"));
    assert!(!str_eq("ab", "abc"));
}
