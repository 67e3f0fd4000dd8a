use genesis_agent::text::{
    concat3, contains, join, parse_u64, replace_all, starts_with, str_equal, strip_newline, trim,
    trim_end_matches,
};

#[test]
fn parse_u64_accepts_plain_and_signed_digits() {
    assert_eq!(parse_u64("42"), Some(42));
    assert_eq!(parse_u64("+7"), Some(7));
    assert_eq!(parse_u64("007"), Some(7));
    assert_eq!(parse_u64("18446744073709551615"), Some(u64::MAX));
}

#[test]
fn parse_u64_rejects_what_std_rejects() {
    for text in ["", "+", "-1", "-", "12a", " 5", "5 ", "18446744073709551616", "99999999999999999999x", "١٢"] {
        assert_eq!(parse_u64(text), None, "{text}");
        assert_eq!(parse_u64(text), text.parse::<u64>().ok(), "{text}");
    }
}

#[test]
fn parse_u64_agrees_with_std_on_samples() {
    for text in ["0", "1", "+0", "4294967296", "00000000000000000000001", "18446744073709551614"] {
        assert_eq!(parse_u64(text), text.parse::<u64>().ok(), "{text}");
    }
}

#[test]
fn replace_all_matches_str_replace() {
    let cases = [
        ("a{{X}}b{{X}}", "{{X}}", "yy"),
        ("aaaa", "aa", "b"),
        ("no match here", "{{X}}", "y"),
        ("{{X}}", "{{X}}", ""),
        ("ééé", "é", "e"),
        ("/var/lib/models_database.sqlite", "models_database.sqlite", "migrations"),
    ];
    for (s, from, to) in cases {
        assert_eq!(replace_all(s, from, to), s.replace(from, to), "{s}");
    }
}

#[test]
fn trim_matches_str_trim() {
    for s in ["  abc \n", "\t\u{3000}x y\u{2028}", "   ", "", "nochange", "\u{85}a\u{a0}"] {
        assert_eq!(trim(s), s.trim(), "{s:?}");
    }
}

#[test]
fn trim_end_matches_removes_repeated_suffix() {
    assert_eq!(trim_end_matches("disk_uuid", "_uuid"), "disk");
    assert_eq!(trim_end_matches("nic_uuid_uuid", "_uuid"), "nic");
    assert_eq!(trim_end_matches("uuid", "_uuid"), "uuid");
    assert_eq!(trim_end_matches("_uuid", "_uuid"), "");
}

#[test]
fn contains_and_prefix_checks() {
    assert!(contains("Device created successfully!", "created"));
    assert!(!contains("abc", "abcd"));
    assert!(contains("abc", ""));
    assert!(starts_with("deleted_port", "deleted_"));
    assert!(!starts_with("delete_port", "deleted_"));
    assert!(str_equal("héllo", "héllo"));
    assert!(!str_equal("a", "b"));
}

#[test]
fn join_and_concat() {
    let items = vec!["1".to_string(), "2".to_string(), "3".to_string()];
    assert_eq!(join(&items, ","), "1,2,3");
    assert_eq!(join(&Vec::new(), ","), "");
    assert_eq!(concat3("[", "a", "]"), "[a]");
}

#[test]
fn strip_newline_removes_one_line_feed() {
    assert_eq!(strip_newline(b"abc\n"), b"abc");
    assert_eq!(strip_newline(b"abc\n\n"), b"abc\n");
    assert_eq!(strip_newline(b"abc"), b"abc");
    assert_eq!(strip_newline(b""), b"");
}
