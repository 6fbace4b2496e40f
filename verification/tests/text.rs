use s3_ingest::text::{
    ends_with, i64_to_string, parse_u64, place_of, starts_with, str_eq, strip_quote_pair,
    trim_quotes, u64_to_string, Place,
};

#[test]
fn decimal_numerals() {
    assert_eq!(u64_to_string(0), "0");
    assert_eq!(u64_to_string(7), "7");
    assert_eq!(u64_to_string(10), "10");
    assert_eq!(u64_to_string(12345), "12345");
    assert_eq!(u64_to_string(u64::MAX), "18446744073709551615");
    assert_eq!(i64_to_string(0), "0");
    assert_eq!(i64_to_string(-1), "-1");
    assert_eq!(i64_to_string(42), "42");
    assert_eq!(i64_to_string(i64::MIN), "-9223372036854775808");
    assert_eq!(i64_to_string(i64::MAX), "9223372036854775807");
}

#[test]
fn parse_u64_reads_as_the_standard_library() {
    let cases = [
        "", "0", "7", "007", "+7", "+", "-7", "++7", "+-7", "12a", "a12", " 12", "12 ", "1_000",
        "18446744073709551615", "18446744073709551616", "99999999999999999999999",
        "000000000000000000000000000001", "٣", "1.5", "0x10",
    ];
    for c in cases {
        assert_eq!(parse_u64(c), c.parse::<u64>().ok(), "{:?}", c);
    }
    assert_eq!(parse_u64("12345"), Some(12345));
    assert_eq!(parse_u64("+12"), Some(12));
    assert_eq!(parse_u64("18446744073709551615"), Some(u64::MAX));
    assert_eq!(parse_u64("18446744073709551616"), None);
}

#[test]
fn quotes_are_stripped() {
    assert_eq!(strip_quote_pair("\"abc\""), "abc");
    assert_eq!(strip_quote_pair("abc"), "abc");
    assert_eq!(strip_quote_pair("\"abc"), "abc");
    assert_eq!(strip_quote_pair("abc\""), "abc");
    assert_eq!(strip_quote_pair("\"\"abc\"\""), "\"abc\"");
    assert_eq!(strip_quote_pair("\""), "");
    assert_eq!(strip_quote_pair(""), "");
    assert_eq!(strip_quote_pair("a\"b"), "a\"b");
    for c in ["\"abc\"", "abc", "\"\"abc\"\"", "\"", "", "\"\"\"", "a\"b", "\"é\""] {
        assert_eq!(trim_quotes(c), c.trim_matches('"'), "{:?}", c);
    }
}

#[test]
fn prefixes_and_suffixes() {
    assert!(starts_with("x-amz-meta-a", "x-amz-meta-"));
    assert!(starts_with("x-amz-meta-", "x-amz-meta-"));
    assert!(!starts_with("x-amz-meta", "x-amz-meta-"));
    assert!(!starts_with("y-amz-meta-a", "x-amz-meta-"));
    assert!(starts_with("abc", ""));
    assert!(ends_with("bucket-s3alias", "-s3alias"));
    assert!(!ends_with("bucket-s3alia", "-s3alias"));
    assert!(ends_with("", ""));
    assert!(str_eq("héllo", "héllo"));
    assert!(!str_eq("hello", "hellO"));
    assert!(!str_eq("hello", "hell"));
}

#[test]
fn texts_are_ordered_as_their_bytes() {
    let texts = ["", "a", "A", "ab", "b", "aa", "a-b", "a b", "z", "\u{e9}", "ze", "\u{10000}", "\u{ffff}", "~"];
    for a in texts {
        for b in texts {
            let expected = if a < b {
                Place::Before
            } else if a == b {
                Place::Same
            } else {
                Place::After
            };
            assert_eq!(place_of(a, b), expected, "{:?} {:?}", a, b);
            assert_eq!(a.as_bytes() < b.as_bytes(), expected == Place::Before);
        }
    }
}
