use notes_core::text::{
    is_whitespace_char, parse_usize, push_decimal, split_list, strip_prefix, trim,
    trim_end_matches,
};

#[test]
fn whitespace_is_the_unicode_property() {
    let mut code: u32 = 0;
    while code <= 0x10FFFF {
        if let Some(c) = char::from_u32(code) {
            assert_eq!(is_whitespace_char(c), c.is_whitespace(), "U+{:04X}", code);
        }
        code += 1;
    }
}

#[test]
fn trim_removes_whitespace_at_both_ends_only() {
    assert_eq!(trim("  a b \t\n"), "a b");
    assert_eq!(trim("a"), "a");
    assert_eq!(trim(""), "");
    assert_eq!(trim("   "), "");
    assert_eq!(trim("\u{3000}x\u{a0}"), "x");
    assert_eq!(trim("\u{2003}é ü\u{2028}"), "é ü");
    assert_eq!(trim("x\u{200b}"), "x\u{200b}");
}

#[test]
fn trim_agrees_with_std() {
    let cases = [
        "", " ", "a", " a", "a ", " a ", "\t\r\n a b \u{85}", "\u{1680}Autumn\u{205f}",
        "\u{feff}x", "日本語 ", "  \u{202f}  ",
    ];
    for case in cases {
        assert_eq!(trim(case), case.trim());
    }
}

#[test]
fn split_list_keeps_trimmed_non_empty_entries() {
    assert_eq!(split_list("a, b,,c ,"), vec!["a".to_string(), "b".to_string(), "c".to_string()]);
    assert_eq!(split_list(""), Vec::<String>::new());
    assert_eq!(split_list(" , ,"), Vec::<String>::new());
    assert_eq!(split_list("one"), vec!["one".to_string()]);
    assert_eq!(split_list("Prof. A B ,Dr C"), vec!["Prof. A B".to_string(), "Dr C".to_string()]);
}

#[test]
fn split_list_agrees_with_std() {
    let cases = ["", ",", "a", "a,b", " a , b ", ",,a,,", "x, y ,z,", "é, ü ,\u{3000}", "a b,c d"];
    for case in cases {
        let expected: Vec<String> = case
            .split(',')
            .map(|s| s.trim().to_string())
            .filter(|s| !s.is_empty())
            .collect();
        assert_eq!(split_list(case), expected);
    }
}

#[test]
fn parse_usize_reads_decimal_numbers() {
    assert_eq!(parse_usize("2024"), Some(2024));
    assert_eq!(parse_usize("+7"), Some(7));
    assert_eq!(parse_usize("0"), Some(0));
    assert_eq!(parse_usize("00012"), Some(12));
    assert_eq!(parse_usize(""), None);
    assert_eq!(parse_usize("+"), None);
    assert_eq!(parse_usize("-1"), None);
    assert_eq!(parse_usize("12a"), None);
    assert_eq!(parse_usize(" 12"), None);
    assert_eq!(parse_usize("1 2"), None);
    assert_eq!(parse_usize("++1"), None);
    assert_eq!(parse_usize("\u{663}"), None);
}

#[test]
fn parse_usize_stops_at_the_largest_number() {
    let largest = usize::MAX.to_string();
    assert_eq!(parse_usize(&largest), Some(usize::MAX));
    let mut above = largest.clone();
    above.push('0');
    assert_eq!(parse_usize(&above), None);
    let next = (usize::MAX as u128 + 1).to_string();
    assert_eq!(parse_usize(&next), None);
}

#[test]
fn parse_usize_agrees_with_std() {
    let cases = ["", "+", "-", "0", "+0", "-0", "1", "007", "18446744073709551615",
        "18446744073709551616", "99999999999999999999999", "12x", "x12", "1_000", "٣", "+12", "1+2"];
    for case in cases {
        assert_eq!(parse_usize(case), case.parse::<usize>().ok(), "{:?}", case);
    }
}

#[test]
fn push_decimal_writes_base_ten() {
    for n in [0usize, 1, 9, 10, 11, 99, 100, 2025, 1234567890, usize::MAX] {
        let mut out = String::from("n=");
        push_decimal(&mut out, n);
        assert_eq!(out, format!("n={}", n));
    }
}

#[test]
fn strip_prefix_takes_the_prefix_off() {
    assert_eq!(strip_prefix("Bearer abc", "Bearer "), Some("abc"));
    assert_eq!(strip_prefix("Bearer ", "Bearer "), Some(""));
    assert_eq!(strip_prefix("bearer abc", "Bearer "), None);
    assert_eq!(strip_prefix("Bear", "Bearer "), None);
    assert_eq!(strip_prefix("abc", ""), Some("abc"));
    assert_eq!(strip_prefix("éa", "é"), Some("a"));
}

#[test]
fn trim_end_matches_takes_every_repetition_off() {
    assert_eq!(trim_end_matches("a.jpg", ".jpg"), "a");
    assert_eq!(trim_end_matches("a.jpg.jpg", ".jpg"), "a");
    assert_eq!(trim_end_matches(".jpg", ".jpg"), "");
    assert_eq!(trim_end_matches("jpg", ".jpg"), "jpg");
    assert_eq!(trim_end_matches("a.jpg.png", ".jpg"), "a.jpg.png");
    assert_eq!(trim_end_matches("abc", ""), "abc");
    for case in ["", "x.jpg", "x.jpg.jpg.jpg", "x.jp", "/p/é.jpg", ".jpgx"] {
        assert_eq!(trim_end_matches(case, ".jpg"), case.trim_end_matches(".jpg"));
    }
}
