use chat_assistant::text::{
    is_space_char, join_text, pop_char, push_char, push_decimal, strip_text_prefix, trim_text,
};

#[test]
fn whitespace_matches_std_for_every_char() {
    for u in 0u32..=0x10FFFF {
        if let Some(c) = char::from_u32(u) {
            assert_eq!(is_space_char(c), c.is_whitespace(), "code point {:#x}", u);
        }
    }
}

#[test]
fn trim_matches_std() {
    let samples = [
        "",
        "   ",
        "  halo  ",
        "\t\nfakta\u{3000}",
        "tanpa spasi",
        "\u{a0}a b c\u{2009}",
        "x",
        " kiri",
        "kanan ",
    ];
    for s in samples {
        assert_eq!(trim_text(s), s.trim(), "{:?}", s);
        let once = trim_text(s);
        assert_eq!(trim_text(&once), once);
    }
}

#[test]
fn strip_prefix_matches_std() {
    let samples = ["remember: kopi", "remember:", "remembe", "Remember: x", "", "remember:x y"];
    for s in samples {
        assert_eq!(
            strip_text_prefix(s, "remember:"),
            s.strip_prefix("remember:").map(|r| r.to_string()),
            "{:?}",
            s
        );
    }
    assert_eq!(strip_text_prefix("πρώτο", "πρ"), Some("ώτο".to_string()));
}

#[test]
fn decimal_digits() {
    for n in [0u64, 7, 10, 99, 100, 1725029869, u64::MAX] {
        let mut s = String::from("mem_");
        push_decimal(&mut s, n);
        assert_eq!(s, format!("mem_{}", n));
    }
}

#[test]
fn join_matches_std() {
    let parts: Vec<String> = vec!["a".into(), "bc".into(), "".into(), "d".into()];
    assert_eq!(join_text(&parts, "\n- "), parts.join("\n- "));
    assert_eq!(join_text(&[], ","), "");
    assert_eq!(join_text(&["solo".to_string()], ","), "solo");
}

#[test]
fn push_and_pop_characters() {
    let mut s = String::from("ab");
    push_char(&mut s, 'ç');
    assert_eq!(s, "abç");
    assert_eq!(pop_char(&mut s), Some('ç'));
    assert_eq!(s, "ab");
    let mut e = String::new();
    assert_eq!(pop_char(&mut e), None);
    assert_eq!(e, "");
}
