use helioscope::text::{decimal_text, is_white_char, last_line_trimmed};

#[test]
fn trims_ascii_whitespace() {
    assert_eq!(last_line_trimmed("  a b \t"), "a b");
    assert_eq!(last_line_trimmed(" \t "), "");
}

#[test]
fn trims_unicode_whitespace() {
    assert_eq!(last_line_trimmed("\u{3000}x\u{85}\u{a0}"), "x");
    assert_eq!(last_line_trimmed("\u{200b}x"), "\u{200b}x");
}

#[test]
fn whitespace_matches_std() {
    for code in 0u32..0x3100 {
        if let Some(c) = char::from_u32(code) {
            assert_eq!(is_white_char(c), c.is_whitespace(), "{:x}", code);
        }
    }
}

#[test]
fn last_line_is_trimmed() {
    assert_eq!(last_line_trimmed("log\nsome\n  tiles/out.png \r\n"), "tiles/out.png");
    assert_eq!(last_line_trimmed("a\nb"), "b");
    assert_eq!(last_line_trimmed(""), "");
    assert_eq!(last_line_trimmed("a\n\n"), "");
    assert_eq!(last_line_trimmed("only"), "only");
}

#[test]
fn last_line_agrees_with_std() {
    let cases = ["x\r\ny\r\n", "\n", "a\n \n", "p\rq", "one\ntwo\nthree \n"];
    for s in cases {
        assert_eq!(last_line_trimmed(s), s.lines().last().unwrap_or("").trim());
    }
}

#[test]
fn decimal_digits() {
    assert_eq!(decimal_text(0), "0");
    assert_eq!(decimal_text(19), "19");
    assert_eq!(decimal_text(4294967295), "4294967295");
    assert_eq!(decimal_text(u64::MAX), u64::MAX.to_string());
}
