use video_downloader::text::{
    chars_of, contains, decimal_string, find_char, is_whitespace, matches_at, parse_decimal,
    starts_with,
};

fn chars(s: &str) -> Vec<char> {
    s.chars().collect()
}

#[test]
fn whitespace_is_what_the_standard_library_calls_whitespace() {
    let mut code: u32 = 0;
    while code <= 0x10FFFF {
        if let Some(c) = char::from_u32(code) {
            assert_eq!(is_whitespace(c), c.is_whitespace(), "U+{:04X}", code);
        }
        code += 1;
    }
}

#[test]
fn chars_of_gives_the_characters() {
    assert_eq!(chars_of(""), Vec::<char>::new());
    assert_eq!(chars_of("a\u{2248}b"), vec!['a', '\u{2248}', 'b']);
}

#[test]
fn find_char_gives_the_first_position() {
    let c = chars("1920x1080x");
    assert_eq!(find_char(&c, 'x', 0), 4);
    assert_eq!(find_char(&c, 'x', 4), 4);
    assert_eq!(find_char(&c, 'x', 5), 9);
    assert_eq!(find_char(&c, 'x', 10), 10);
    assert_eq!(find_char(&c, 'y', 0), 10);
}

#[test]
fn matches_at_compares_in_place() {
    let c = chars("audio only");
    assert!(matches_at(&c, &chars("audio"), 0));
    assert!(matches_at(&c, &chars("only"), 6));
    assert!(!matches_at(&c, &chars("only"), 5));
    assert!(!matches_at(&c, &chars("only"), 7));
    assert!(matches_at(&c, &chars(""), 10));
    assert!(!matches_at(&c, &chars(""), 11));
    assert!(!matches_at(&c, &chars("x"), usize::MAX));
}

#[test]
fn contains_agrees_with_the_standard_library() {
    let texts = ["", "a", "audio only", "xaudio onlyx", "audio  only", "audio onl", "aaab", "abab"];
    let patterns = ["", "a", "audio only", "ab", "b", "aab", "bab", "abc"];
    for t in texts {
        for p in patterns {
            assert_eq!(contains(&chars(t), &chars(p)), t.contains(p), "{:?} in {:?}", p, t);
            assert_eq!(starts_with(&chars(t), &chars(p)), t.starts_with(p), "{:?} at {:?}", p, t);
        }
    }
}

#[test]
fn parse_decimal_agrees_with_the_standard_library() {
    let samples = [
        "", "0", "7", "007", "1080", "+1080", "+", "++1", "+-1", "-1", "-0", "1 ", " 1", "1_000",
        "12a", "a12", "4294967295", "4294967296", "+4294967295", "42949672950", "0000000000001",
        "99999999999999999999", "18446744073709551616", "\u{661}\u{662}", "1.5", "0x10",
    ];
    for s in samples {
        assert_eq!(parse_decimal(&chars(s)), s.parse::<u32>().ok(), "{:?}", s);
    }
}

#[test]
fn parse_decimal_reads_exact_values() {
    assert_eq!(parse_decimal(&chars("1080")), Some(1080));
    assert_eq!(parse_decimal(&chars("+0")), Some(0));
    assert_eq!(parse_decimal(&chars("4294967295")), Some(u32::MAX));
    assert_eq!(parse_decimal(&chars("4294967296")), None);
}

#[test]
fn decimal_string_agrees_with_the_standard_library() {
    let samples = [0u32, 1, 9, 10, 11, 99, 100, 144, 1080, 2160, 65535, 1000000, u32::MAX - 1, u32::MAX];
    for n in samples {
        assert_eq!(decimal_string(n), n.to_string());
    }
}

#[test]
fn decimal_string_and_parse_decimal_undo_each_other() {
    let mut n: u32 = 0;
    while n < 3000 {
        assert_eq!(parse_decimal(&chars(&decimal_string(n))), Some(n));
        n += 1;
    }
}
