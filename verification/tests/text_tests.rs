use local_upload_agent::text::{
    after_prefix, blank, comes_before, decimal_text, find, has_part, has_prefix, has_suffix,
    parse_u64, same, same_ignoring_ascii_case, signed_decimal_text, strip_prefixes,
    strip_suffixes, trim, trim_end_char, trim_start_char, white_space,
};

#[test]
fn white_space_agrees_with_std() {
    for code in 0..=0x10FFFFu32 {
        if let Some(c) = char::from_u32(code) {
            assert_eq!(white_space(c), c.is_whitespace(), "{code:x}");
        }
    }
}

#[test]
fn trimming_agrees_with_std() {
    for text in ["", " ", "\t\n a b \u{3000}", "ab", "\u{a0}x", "x\u{2003}", "中 文 "] {
        assert_eq!(trim(text), text.trim());
        assert_eq!(blank(text), text.trim().is_empty());
        assert_eq!(trim_end_char(text, 'b'), text.trim_end_matches('b'));
        assert_eq!(trim_start_char(text, 'a'), text.trim_start_matches('a'));
    }
}

#[test]
fn repeated_prefixes_and_suffixes_are_removed() {
    assert_eq!(strip_prefixes("ababc", "ab"), "c");
    assert_eq!(strip_prefixes("ababc", ""), "ababc");
    assert_eq!(strip_suffixes("x/logs/logs", "/logs"), "x");
    assert_eq!(strip_suffixes("x/log", "/logs"), "x/log");
    assert_eq!(after_prefix("bytes=0-9", "bytes=0-"), Some("9"));
    assert_eq!(after_prefix("byte", "bytes=0-"), None);
}

#[test]
fn parts_are_found() {
    assert!(has_prefix("upload_TRACKER_x", "upload_TRACKER_"));
    assert!(!has_prefix("up", "upload"));
    assert!(has_suffix("x__gs.url", "__gs.url"));
    assert!(!has_suffix("x__gs.url_1", "__gs.url"));
    assert_eq!(find("ab__gs.url_1__gs.url_2", "__gs.url_"), Some(2));
    assert_eq!(find("abc", ""), Some(0));
    assert_eq!(find("abc", "d"), None);
    assert!(has_part("中文字", "文"));
    assert!(same("a", "a"));
    assert!(!same("a", "b"));
}

#[test]
fn numbers_are_written_and_read() {
    for n in [0u64, 7, 10, 99, 100, 12345, u64::MAX] {
        assert_eq!(decimal_text(n), n.to_string());
        assert_eq!(parse_u64(&n.to_string()), Some(n));
    }
    for n in [0i32, -1, 1, i32::MIN, i32::MAX] {
        assert_eq!(signed_decimal_text(n), n.to_string());
    }
    for text in ["", "+", "-1", "+12", "007", "18446744073709551616", "1a", " 1", "１"] {
        assert_eq!(parse_u64(text), text.parse::<u64>().ok(), "{text}");
    }
}

#[test]
fn order_is_that_of_std() {
    let texts = ["", "a", "aa", "ab", "b", "B", "中", "\u{10000}", "\u{ffff}"];
    for a in texts {
        for b in texts {
            assert_eq!(comes_before(a, b), a < b, "{a} {b}");
        }
    }
}

#[test]
fn case_is_ignored_in_ascii_only() {
    assert!(same_ignoring_ascii_case("FALSE", "false"));
    assert!(same_ignoring_ascii_case("Cmd", "cMD"));
    assert!(!same_ignoring_ascii_case("Ä", "ä"));
    assert!(!same_ignoring_ascii_case("fals", "false"));
}
