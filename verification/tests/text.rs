use scrapes::text::{
    chars_of, ends_with, equals_ignore_ascii_case, find_text, parse_decimal_u64, push_decimal,
    same_text, starts_with, text_between, to_decimal, trim_bounds,
};

#[test]
fn test_to_decimal() {
    assert_eq!(to_decimal(0), "0");
    assert_eq!(to_decimal(7), "7");
    assert_eq!(to_decimal(10), "10");
    assert_eq!(to_decimal(4499), "4499");
    assert_eq!(to_decimal(1_000_000), "1000000");
    assert_eq!(to_decimal(u64::MAX), "18446744073709551615");
}

#[test]
fn test_push_decimal_appends() {
    let mut s = String::from("part");
    push_decimal(&mut s, 42);
    assert_eq!(s, "part42");
    push_decimal(&mut s, 0);
    assert_eq!(s, "part420");
}

#[test]
fn test_parse_decimal_u64() {
    assert_eq!(parse_decimal_u64("0"), Some(0));
    assert_eq!(parse_decimal_u64("16384"), Some(16384));
    assert_eq!(parse_decimal_u64("+5"), Some(5));
    assert_eq!(parse_decimal_u64("007"), Some(7));
    assert_eq!(parse_decimal_u64("18446744073709551615"), Some(u64::MAX));
    assert_eq!(parse_decimal_u64("18446744073709551616"), None);
    assert_eq!(parse_decimal_u64("99999999999999999999999"), None);
    assert_eq!(parse_decimal_u64(""), None);
    assert_eq!(parse_decimal_u64("+"), None);
    assert_eq!(parse_decimal_u64("-1"), None);
    assert_eq!(parse_decimal_u64("++1"), None);
    assert_eq!(parse_decimal_u64(" 1"), None);
    assert_eq!(parse_decimal_u64("1 "), None);
    assert_eq!(parse_decimal_u64("12a"), None);
    assert_eq!(parse_decimal_u64("1_000"), None);
    assert_eq!(parse_decimal_u64("٣"), None);
}

#[test]
fn test_parse_agrees_with_std() {
    for text in ["0", "+0", "42", "+", "", "-0", "0x10", "18446744073709551615", "1e3", "١٢"] {
        assert_eq!(parse_decimal_u64(text), text.parse::<u64>().ok(), "{:?}", text);
    }
}

#[test]
fn test_decimal_round_trip() {
    for n in [0u64, 1, 9, 10, 99, 100, 12345, u64::MAX - 1, u64::MAX] {
        assert_eq!(parse_decimal_u64(&to_decimal(n)), Some(n));
        assert_eq!(to_decimal(n), n.to_string());
    }
}

#[test]
fn test_equals_ignore_ascii_case() {
    assert!(equals_ignore_ascii_case("bytes", "BYTES"));
    assert!(equals_ignore_ascii_case("ByTeS", "bytes"));
    assert!(equals_ignore_ascii_case("", ""));
    assert!(!equals_ignore_ascii_case("bytes", "byte"));
    assert!(!equals_ignore_ascii_case("bytes", "bytez"));
    assert!(!equals_ignore_ascii_case("é", "É"));
    assert!(equals_ignore_ascii_case("a[z", "A[Z"));
    assert!(!equals_ignore_ascii_case("@", "`"));
}

#[test]
fn test_trim_bounds_agree_with_std() {
    for text in [
        "",
        " ",
        "abc",
        "  abc",
        "abc  ",
        "\t abc \r\n",
        " a b ",
        "\u{a0}x\u{3000}",
        "\u{2003}é\u{85}",
        "\u{200b}x",
        "\u{1680}\u{2028}\u{2029}\u{202f}\u{205f}",
    ] {
        let chars = chars_of(text);
        let (lo, hi) = trim_bounds(&chars);
        let trimmed: String = chars[lo..hi].iter().collect();
        assert_eq!(trimmed, text.trim(), "{:?}", text);
    }
}

#[test]
fn test_chars_of() {
    assert_eq!(chars_of("héllo"), vec!['h', 'é', 'l', 'l', 'o']);
    assert!(chars_of("").is_empty());
}

#[test]
fn test_same_text_and_affixes() {
    assert!(same_text("progress", "progress"));
    assert!(!same_text("progress", "progres"));
    assert!(!same_text("a", "b"));
    assert!(starts_with("video.part0", "video.part"));
    assert!(starts_with("video", ""));
    assert!(!starts_with("vid", "video"));
    assert!(!starts_with("xideo.part0", "video.part"));
    assert!(ends_with("video.part0.done", ".done"));
    assert!(ends_with("x", ""));
    assert!(!ends_with("done", ".done"));
    assert!(!ends_with("video.part0.dona", ".done"));
}

#[test]
fn test_find_text() {
    let chars = chars_of("key=a=b");
    assert_eq!(find_text(&chars, &chars_of("a=")), Some(4));
    assert_eq!(find_text(&chars, &chars_of("=")), Some(3));
    assert_eq!(find_text(&chars, &chars_of("")), Some(0));
    assert_eq!(find_text(&chars, &chars_of("key=a=b")), Some(0));
    assert_eq!(find_text(&chars, &chars_of("key=a=bc")), None);
    assert_eq!(find_text(&chars, &chars_of("b=")), None);
}

#[test]
fn test_text_between() {
    assert_eq!(text_between("a=1&b=2", "a=", '&'), Some("1".to_string()));
    assert_eq!(text_between("a=1&b=2", "b=", '&'), None);
    assert_eq!(text_between("a=1&b=2", "c=", '&'), None);
    assert_eq!(text_between("x\"y\"z", "\"", '"'), Some("y".to_string()));
    assert_eq!(text_between("k=&", "k=", '&'), Some("".to_string()));
}

#[test]
fn test_whitespace_is_that_of_std_for_every_char() {
    let mut buffer = String::new();
    for code in 0..=0x10FFFFu32 {
        let c = match char::from_u32(code) {
            Some(c) => c,
            None => continue,
        };
        buffer.clear();
        buffer.push(c);
        let chars = chars_of(&buffer);
        let (lo, hi) = trim_bounds(&chars);
        assert_eq!(lo == hi, c.is_whitespace(), "U+{:04X}", code);
    }
}

#[test]
fn test_case_folding_is_that_of_std_for_every_char() {
    let mut left = String::new();
    let mut right = String::new();
    for code in 0..=0x10FFFFu32 {
        let c = match char::from_u32(code) {
            Some(c) => c,
            None => continue,
        };
        left.clear();
        left.push(c);
        right.clear();
        right.push(c.to_ascii_lowercase());
        assert!(equals_ignore_ascii_case(&left, &right), "U+{:04X}", code);
        right.clear();
        right.push(c.to_ascii_uppercase());
        assert!(equals_ignore_ascii_case(&left, &right), "U+{:04X}", code);
        for other in ['a', 'Z', '[', '@', '`', '{', 'k', '\u{212a}'] {
            right.clear();
            right.push(other);
            assert_eq!(
                equals_ignore_ascii_case(&left, &right),
                left.eq_ignore_ascii_case(&right),
                "U+{:04X} against {:?}",
                code,
                other
            );
        }
    }
}
