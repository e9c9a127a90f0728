use archive_parser::text::{
    chars_of, contains, ends_with, file_name, format_i64, format_u64, parse_i32, parse_i64, parse_u32,
    parse_u64, replace, starts_with, string_of,
};

#[test]
fn replace_replaces_every_match() {
    assert_eq!(replace("a-b-c", "-", "+"), "a+b+c");
    assert_eq!(replace("no match", "xyz", "q"), "no match");
}

#[test]
fn replace_matches_left_to_right_without_overlap() {
    assert_eq!(replace("aaa", "aa", "b"), "ba");
    assert_eq!(replace("aaaa", "aa", "b"), "bb");
}

#[test]
fn replace_with_empty_pattern_fills_every_boundary() {
    assert_eq!(replace("abc", "", "x"), "xaxbxcx");
    assert_eq!(replace("", "", "x"), "x");
}

#[test]
fn replace_handles_non_ascii_text() {
    assert_eq!(replace("héllo wörld ☃", "ö", "o"), "héllo world ☃");
    assert_eq!(replace("☃☃", "☃", ""), "");
}

#[test]
fn replace_agrees_with_std() {
    let cases = [
        ("https://t.co/abc and https://t.co/abc", "https://t.co/abc", "https://example.com"),
        ("@bob says hi to @bobby", "@bob", "@bob@twitter.com"),
        ("x", "xx", "y"),
    ];
    for (s, from, to) in cases {
        assert_eq!(replace(s, from, to), s.replace(from, to));
    }
}

#[test]
fn prefix_suffix_and_containment() {
    assert!(starts_with("RT @bob: hi", "RT @bob:"));
    assert!(!starts_with("RT @bo", "RT @bob:"));
    assert!(starts_with("anything", ""));
    assert!(ends_with("photo.jpg", ".jpg"));
    assert!(!ends_with("photo.jpeg", ".jpg"));
    assert!(contains("see https://t.co/x", "https://t.co/"));
    assert!(!contains("see https://t.c", "https://t.co/"));
    assert!(contains("", ""));
}

#[test]
fn chars_round_trip() {
    let v = chars_of("añb☃");
    assert_eq!(v, vec!['a', 'ñ', 'b', '☃']);
    assert_eq!(string_of(&v), "añb☃");
}

#[test]
fn parse_unsigned_like_std() {
    assert_eq!(parse_u64("0"), Some(0));
    assert_eq!(parse_u64("+42"), Some(42));
    assert_eq!(parse_u64("007"), Some(7));
    assert_eq!(parse_u64("18446744073709551615"), Some(u64::MAX));
    assert_eq!(parse_u64("18446744073709551616"), None);
    assert_eq!(parse_u64("-1"), None);
    assert_eq!(parse_u64("-0"), None);
    assert_eq!(parse_u64(""), None);
    assert_eq!(parse_u64("+"), None);
    assert_eq!(parse_u64("12a"), None);
    assert_eq!(parse_u64(" 1"), None);
    assert_eq!(parse_u32("4294967295"), Some(u32::MAX));
    assert_eq!(parse_u32("4294967296"), None);
    for s in ["1", "99", "+3", "-3", "", "x", "99999999999999999999"] {
        assert_eq!(parse_u64(s), s.parse::<u64>().ok());
        assert_eq!(parse_u32(s), s.parse::<u32>().ok());
    }
}

#[test]
fn parse_signed_like_std() {
    assert_eq!(parse_i64("-9223372036854775808"), Some(i64::MIN));
    assert_eq!(parse_i64("9223372036854775807"), Some(i64::MAX));
    assert_eq!(parse_i64("9223372036854775808"), None);
    assert_eq!(parse_i64("-9223372036854775809"), None);
    assert_eq!(parse_i64("-0"), Some(0));
    assert_eq!(parse_i64("-"), None);
    assert_eq!(parse_i32("-2147483648"), Some(i32::MIN));
    assert_eq!(parse_i32("2147483648"), None);
    for s in ["1", "-1", "+1", "--1", "1-", "1603462400000000000", ""] {
        assert_eq!(parse_i64(s), s.parse::<i64>().ok());
        assert_eq!(parse_i32(s), s.parse::<i32>().ok());
    }
}

#[test]
fn format_integers_like_display() {
    assert_eq!(format_u64(0), "0");
    assert_eq!(format_u64(1234567890), "1234567890");
    assert_eq!(format_u64(u64::MAX), u64::MAX.to_string());
    assert_eq!(format_i64(-42), "-42");
    assert_eq!(format_i64(i64::MIN), i64::MIN.to_string());
    assert_eq!(format_i64(1603462400123456789), "1603462400123456789");
}

#[test]
fn file_name_like_path() {
    assert_eq!(file_name("http://pbs.twimg.com/media/EkxY.jpg").as_deref(), Some("EkxY.jpg"));
    assert_eq!(file_name("a/b/").as_deref(), Some("b"));
    assert_eq!(file_name("a/./").as_deref(), Some("a"));
    assert_eq!(file_name("./x").as_deref(), Some("x"));
    assert_eq!(file_name("a//b").as_deref(), Some("b"));
    assert_eq!(file_name("a/.."), None);
    assert_eq!(file_name("."), None);
    assert_eq!(file_name("/"), None);
    assert_eq!(file_name(""), None);
    for p in ["x/y.mp4", "/abs/z", "q/..", "w/.", "..", "k"] {
        let expected = std::path::Path::new(p)
            .file_name()
            .map(|f| f.to_string_lossy().to_string());
        assert_eq!(file_name(p), expected);
    }
}
