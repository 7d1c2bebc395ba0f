use busyflag::text::{
    chars_of, contains, decimal_chars, is_whitespace, parse_u64, split_lines, string_of, to_lowercase, trim_str,
};

fn v(s: &str) -> Vec<char> {
    s.chars().collect()
}

#[test]
fn trim_matches_std() {
    for s in ["", "  a b  ", "\t\nx\r\n", "\u{3000}wide\u{00A0}", "   "] {
        assert_eq!(string_of(&trim_str(s)), s.trim());
    }
}

#[test]
fn whitespace_matches_std() {
    for c in ['\t', '\n', ' ', '\u{85}', '\u{A0}', '\u{2009}', '\u{3000}', 'a', '\u{200B}', '_'] {
        assert_eq!(is_whitespace(c), c.is_whitespace());
    }
}

#[test]
fn parse_u64_matches_std() {
    for s in ["0", "42", "+7", "-7", "", "+", "12a", "18446744073709551615", "18446744073709551616", " 1"] {
        assert_eq!(parse_u64(&v(s)), s.parse::<u64>().ok(), "input {s:?}");
    }
}

#[test]
fn decimal_matches_to_string() {
    for n in [0u64, 7, 10, 305, u64::MAX] {
        assert_eq!(string_of(&decimal_chars(n)), n.to_string());
    }
}

#[test]
fn lines_match_std() {
    for s in ["", "a", "a\n", "a\nb", "a\r\nb\r\n", "\n\n", "x\ry", "last\r"] {
        let mine: Vec<String> = split_lines(&v(s)).iter().map(string_of).collect();
        let std: Vec<String> = s.lines().map(|l| l.to_string()).collect();
        assert_eq!(mine, std, "input {s:?}");
    }
}

#[test]
fn contains_substring() {
    assert!(contains(&v("hello world"), &v("lo w")));
    assert!(contains(&v("abc"), &v("")));
    assert!(!contains(&v("abc"), &v("abcd")));
    assert!(!contains(&v("abc"), &v("ac")));
}

#[test]
fn lowercase_and_chars() {
    assert_eq!(to_lowercase("Com.Apple.SIRI"), "com.apple.siri");
    assert_eq!(chars_of("héllo"), vec!['h', 'é', 'l', 'l', 'o']);
}
