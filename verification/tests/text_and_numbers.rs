use hls_fetch::decimal::{format_decimal, parse_u64};
use hls_fetch::text::{after_last, chars_of, ends_with};

#[test]
fn format_decimal_writes_single_digits() {
    assert_eq!(format_decimal(0), "0");
    assert_eq!(format_decimal(7), "7");
    assert_eq!(format_decimal(9), "9");
}

#[test]
fn format_decimal_writes_longer_numbers() {
    assert_eq!(format_decimal(10), "10");
    assert_eq!(format_decimal(250), "250");
    assert_eq!(format_decimal(2000000), "2000000");
    assert_eq!(format_decimal(u64::MAX), "18446744073709551615");
}

#[test]
fn parse_u64_reads_plain_numbers() {
    assert_eq!(parse_u64("0"), Some(0));
    assert_eq!(parse_u64("500000"), Some(500000));
    assert_eq!(parse_u64("007"), Some(7));
    assert_eq!(parse_u64("18446744073709551615"), Some(u64::MAX));
}

#[test]
fn parse_u64_takes_one_leading_plus() {
    assert_eq!(parse_u64("+5"), Some(5));
    assert_eq!(parse_u64("++5"), None);
    assert_eq!(parse_u64("+"), None);
}

#[test]
fn parse_u64_refuses_what_is_no_number() {
    assert_eq!(parse_u64(""), None);
    assert_eq!(parse_u64("-1"), None);
    assert_eq!(parse_u64("12a"), None);
    assert_eq!(parse_u64("a12"), None);
    assert_eq!(parse_u64(" 12"), None);
    assert_eq!(parse_u64("1.5"), None);
    assert_eq!(parse_u64("١٢"), None);
}

#[test]
fn parse_u64_refuses_what_does_not_fit() {
    assert_eq!(parse_u64("18446744073709551616"), None);
    assert_eq!(parse_u64("99999999999999999999999"), None);
}

#[test]
fn parse_u64_agrees_with_the_standard_parser() {
    let samples = [
        "", "+", "-", "0", "+0", "-0", "42", "+42", "0042", "4 2", "18446744073709551615",
        "18446744073709551616", "184467440737095516150", "x", "1e3",
    ];
    for text in samples {
        assert_eq!(parse_u64(text), text.parse::<u64>().ok(), "for {:?}", text);
    }
}

#[test]
fn parse_u64_reads_back_what_format_decimal_wrote() {
    for n in [0u64, 1, 9, 10, 99, 100, 12345, u64::MAX - 1, u64::MAX] {
        assert_eq!(parse_u64(&format_decimal(n)), Some(n));
    }
}

#[test]
fn chars_of_lists_the_characters() {
    assert_eq!(chars_of(""), Vec::<char>::new());
    assert_eq!(chars_of("aé/"), vec!['a', 'é', '/']);
}

#[test]
fn ends_with_compares_the_tail() {
    assert!(ends_with("stream.m3u8", ".m3u8"));
    assert!(ends_with(".m3u8", ".m3u8"));
    assert!(ends_with("anything", ""));
    assert!(!ends_with("m3u8", ".m3u8"));
    assert!(!ends_with("stream.m3u8x", ".m3u8"));
    assert!(!ends_with("", ".m3u8"));
}

#[test]
fn after_last_takes_what_follows_the_last_stop() {
    assert_eq!(after_last("/dir/stream.m3u8", '/'), "stream.m3u8");
    assert_eq!(after_last("/dir/", '/'), "");
    assert_eq!(after_last("/", '/'), "");
    assert_eq!(after_last("plain", '/'), "plain");
    assert_eq!(after_last("", '/'), "");
    assert_eq!(after_last("/vidéo/é.ts", '/'), "é.ts");
}
