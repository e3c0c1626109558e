use papery::text::{
    chars_of, contains_chars, contains_string, join_path, lines, parse_u32, parse_u64,
    position_of_string, split_chars, str_eq, string_of, strip_prefix_chars, trim_char_chars, trim_str,
    u64_to_string,
};

fn s(v: &[char]) -> String {
    v.iter().collect()
}

#[test]
fn parse_numbers_like_str_parse() {
    assert_eq!(parse_u64("42"), Some(42));
    assert_eq!(parse_u64("+7"), Some(7));
    assert_eq!(parse_u64("007"), Some(7));
    assert_eq!(parse_u64(""), None);
    assert_eq!(parse_u64("+"), None);
    assert_eq!(parse_u64("-1"), None);
    assert_eq!(parse_u64(" 1"), None);
    assert_eq!(parse_u64("1.5"), None);
    assert_eq!(parse_u64("18446744073709551615"), Some(u64::MAX));
    assert_eq!(parse_u64("18446744073709551616"), None);
    assert_eq!(parse_u32("4294967295"), Some(u32::MAX));
    assert_eq!(parse_u32("4294967296"), None);
    for t in ["0", "12", "+3", "x", "", "99999999999"] {
        assert_eq!(parse_u32(t), t.parse::<u32>().ok());
        assert_eq!(parse_u64(t), t.parse::<u64>().ok());
    }
}

#[test]
fn decimal_rendering() {
    assert_eq!(u64_to_string(0), "0");
    assert_eq!(u64_to_string(1800), "1800");
    assert_eq!(u64_to_string(u64::MAX), u64::MAX.to_string());
}

#[test]
fn string_equality_and_search() {
    assert!(str_eq("abc", "abc"));
    assert!(!str_eq("abc", "abd"));
    assert!(!str_eq("abc", "ab"));
    assert!(!str_eq("", "a"));
    assert!(str_eq("", ""));
    assert!(str_eq("ünï", "ünï"));
    let v = vec!["a".to_string(), "b".to_string(), "a".to_string()];
    assert!(contains_string(&v, "b"));
    assert!(!contains_string(&v, "c"));
    assert_eq!(position_of_string(&v, "a"), Some(0));
    assert_eq!(position_of_string(&v, "b"), Some(1));
    assert_eq!(position_of_string(&v, "z"), None);
    assert!(contains_chars(&chars_of("xx kde yy"), "kde"));
    assert!(!contains_chars(&chars_of("kd"), "kde"));
    assert!(contains_chars(&chars_of("abc"), ""));
}

#[test]
fn building_strings() {
    assert_eq!(string_of(&vec!['h', 'é']), "hé");
    assert_eq!(chars_of("hé"), vec!['h', 'é']);
    assert_eq!(join_path("/a", "b"), "/a/b");
    assert_eq!(join_path("/a/", "b"), "/a/b");
    assert_eq!(join_path("", "b"), "b");
}

#[test]
fn trimming() {
    assert_eq!(trim_str("  a b \t\n"), "a b");
    assert_eq!(trim_str(""), "");
    assert_eq!(trim_str(" \u{a0}x\u{3000}"), " \u{a0}x\u{3000}".trim());
    assert_eq!(s(&trim_char_chars(&chars_of("\"\"x\"\""), '"')), "x");
    assert_eq!(s(&trim_char_chars(&chars_of("\"\""), '"')), "");
}

#[test]
fn splitting_and_lines() {
    let parts: Vec<String> = split_chars(&chars_of("a::b"), ':').iter().map(|p| s(p)).collect();
    assert_eq!(parts, vec!["a", "", "b"]);
    let parts: Vec<String> = split_chars(&chars_of(""), ':').iter().map(|p| s(p)).collect();
    assert_eq!(parts, vec![""]);
    for text in ["a\nb\r\nc", "a\n", "", "\n\n", "x\r"] {
        let got: Vec<String> = lines(text).iter().map(|l| s(l)).collect();
        let want: Vec<String> = text.lines().map(|l| l.to_string()).collect();
        assert_eq!(got, want, "lines of {text:?}");
    }
    assert_eq!(strip_prefix_chars(&chars_of("Current=x"), "Current=").map(|r| s(&r)), Some("x".to_string()));
    assert_eq!(strip_prefix_chars(&chars_of("Curr"), "Current="), None);
}
