use mide_core::{
    chars_of, find_chars, lines_of, parse_i64, split_chars, split_pair_chars, str_eq, string_of,
    trim_chars,
};

fn pieces(v: Vec<Vec<char>>) -> Vec<String> {
    v.into_iter().map(|p| p.into_iter().collect()).collect()
}

#[test]
fn parse_matches_std_parse() {
    let cases = [
        "0", "42", "+42", "-42", "007", "", "+", "-", "1a", " 1", "1 ", "9223372036854775807",
        "9223372036854775808", "-9223372036854775808", "-9223372036854775809",
        "99999999999999999999999", "-0", "１",
    ];
    for c in cases {
        assert_eq!(parse_i64(&chars_of(c)), c.parse::<i64>().ok(), "input {:?}", c);
    }
}

#[test]
fn split_matches_std_split() {
    let cases = ["", "a", "a\0b", "\0", "a\0\0b\0", "\0\0\0"];
    for c in cases {
        let expected: Vec<String> = c.split('\0').map(|s| s.to_string()).collect();
        assert_eq!(pieces(split_chars(&chars_of(c), '\0')), expected, "input {:?}", c);
    }
}

#[test]
fn split_pair_matches_std_split() {
    let cases = ["", "a", "a\0\0b", "\0\0\0", "\0\0\0\0", "a\0\0\0b", "x\0y\0\0z\0\0"];
    for c in cases {
        let expected: Vec<String> = c.split("\0\0").map(|s| s.to_string()).collect();
        assert_eq!(pieces(split_pair_chars(&chars_of(c), '\0')), expected, "input {:?}", c);
    }
}

#[test]
fn lines_match_std_lines() {
    let cases = ["", "\n", "a", "a\n", "a\r\nb", "foo\r\nbar\n\nbaz\r", "\r\n\r\n", "x\ry\n"];
    for c in cases {
        let expected: Vec<String> = c.lines().map(|s| s.to_string()).collect();
        assert_eq!(pieces(lines_of(&chars_of(c))), expected, "input {:?}", c);
    }
}

#[test]
fn trim_matches_std_trim() {
    let cases = ["", "  ", " a ", "\t\na b\r\n", "\u{3000}x\u{A0}", "\u{200B}x"];
    for c in cases {
        let t: String = trim_chars(&chars_of(c)).into_iter().collect();
        assert_eq!(t, c.trim(), "input {:?}", c);
    }
}

#[test]
fn find_and_compare() {
    assert_eq!(find_chars(&chars_of("hello world"), &chars_of("o w")), Some(4));
    assert_eq!(find_chars(&chars_of("abc"), &chars_of("")), Some(0));
    assert_eq!(find_chars(&chars_of("abc"), &chars_of("abcd")), None);
    assert!(str_eq("abc", "abc"));
    assert!(!str_eq("abc", "abd"));
    assert_eq!(string_of(&chars_of("héllo"), 1, 3), "él");
}
