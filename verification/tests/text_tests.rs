use rchat::text::{
    after_first, decimal_string, parse_usize, split, starts_with, text_eq, trim, TrimKind,
};

#[test]
fn trim_whitespace_both_ends() {
    assert_eq!(trim("  \t key \n", TrimKind::Whitespace), "key");
    assert_eq!(trim("\u{3000}x\u{a0}", TrimKind::Whitespace), "x");
    assert_eq!(trim("   ", TrimKind::Whitespace), "");
    assert_eq!(trim("", TrimKind::Whitespace), "");
    assert_eq!(trim("a b", TrimKind::Whitespace), "a b");
}

#[test]
fn trim_nul_keeps_spaces() {
    assert_eq!(trim("\0\0 ab \0", TrimKind::Nul), " ab ");
    assert_eq!(trim("\0\0", TrimKind::Nul), "");
}

#[test]
fn parse_usize_like_std() {
    for s in ["0", "42", "+7", "007", "", "+", "-", "-5", "++1", "1 ", "18446744073709551615", "18446744073709551616", "99999999999999999999"] {
        assert_eq!(parse_usize(s), s.parse::<usize>().ok(), "input {:?}", s);
    }
    assert_eq!(parse_usize("+12"), Some(12));
    assert_eq!(parse_usize("1x"), None);
}

#[test]
fn decimal_round_trip() {
    for n in [0usize, 7, 10, 99, 100, 12345, usize::MAX] {
        let s = decimal_string(n);
        assert_eq!(s, n.to_string());
        assert_eq!(parse_usize(&s), Some(n));
    }
}

#[test]
fn split_like_std() {
    for s in ["", " ", "a", "a b", " a  b ", "!sending x.zip 10"] {
        let expected: Vec<String> = s.split(' ').map(|p| p.to_string()).collect();
        assert_eq!(split(s, ' '), expected);
    }
}

#[test]
fn after_first_like_split_once() {
    assert_eq!(after_first("bob> y", '>'), Some(" y".to_string()));
    assert_eq!(after_first("a>b>c", '>'), Some("b>c".to_string()));
    assert_eq!(after_first("none", '>'), None);
    assert_eq!(after_first(">", '>'), Some(String::new()));
}

#[test]
fn prefixes_and_equality() {
    assert!(starts_with("!clear", "!"));
    assert!(starts_with("abc", ""));
    assert!(!starts_with("ab", "abc"));
    assert!(text_eq("é", "é"));
    assert!(!text_eq("a", "b"));
}

#[test]
fn whitespace_matches_std() {
    for u in 0u32..0x3100 {
        if let Some(c) = char::from_u32(u) {
            let s = format!("{}a{}", c, c);
            assert_eq!(trim(&s, TrimKind::Whitespace), s.trim(), "char {:#x}", u);
        }
    }
}
