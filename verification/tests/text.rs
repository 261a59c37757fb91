use web_speedtest::text;

#[test]
fn white_space_is_that_of_unicode() {
    for code in 0..=0x10ffffu32 {
        if let Some(c) = char::from_u32(code) {
            assert_eq!(text::is_white_space(c), c.is_whitespace(), "{code:x}");
        }
    }
}

#[test]
fn trimming_follows_the_standard_library() {
    for s in ["", " ", "a", " a ", "\u{3000}中文\u{a0}", "\t\n x y \r\n", "///", "a//", "/a/", "--a-b--"] {
        assert_eq!(text::trim(s), s.trim());
        assert_eq!(text::trim_end_matches(s, '/'), s.trim_end_matches('/'));
        assert_eq!(text::trim_matches(s, '-'), s.trim_matches('-'));
        assert_eq!(text::to_ascii_lowercase(s), s.to_ascii_lowercase());
        assert_eq!(text::split_whitespace(s), s.split_whitespace().collect::<Vec<_>>());
        assert_eq!(text::split(s, '/'), s.split('/').collect::<Vec<_>>());
        assert_eq!(text::starts_with(s, "/"), s.starts_with("/"));
        assert_eq!(text::strip_prefix(s, "/"), s.strip_prefix("/"));
    }
}

#[test]
fn replacing_and_joining_follow_the_standard_library() {
    let cases = [("aaa", "aa", "b"), ("xaxbx", "x", ""), ("中文中文", "文", "字"), ("", "a", "b"), ("abc", "abcd", "-")];
    for (s, from, to) in cases {
        assert_eq!(text::replace(s, from, to), s.replace(from, to));
    }
    let none: Vec<String> = Vec::new();
    assert_eq!(text::join(&none, ", "), "");
    assert_eq!(text::join(&vec!["a".to_string()], ", "), "a");
    assert_eq!(text::join(&vec!["a".to_string(), "b".to_string()], ", "), "a, b");
}

#[test]
fn numbers_are_written_without_leading_zeros() {
    for n in [0u128, 7, 9, 10, 15, 16, 255, 256, 65535, 1_700_000_000_000_000_000, u128::MAX] {
        assert_eq!(text::decimal_text(n), format!("{n}"));
        assert_eq!(text::hexadecimal_text(n), format!("{n:x}"));
    }
}
