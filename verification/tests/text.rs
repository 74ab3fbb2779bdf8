use bytefetch::planner::HttpDownloadMode;
use bytefetch::request_utils::{extract_part_range, extract_start_range, fetch_requests};
use bytefetch::text::{
    append_decimal, chars_of, index_of, is_whitespace, parse_u64, same_text, trims_to,
};

#[test]
fn parse_u64_reads_what_the_standard_parser_reads() {
    let cases = [
        "", "0", "7", "+7", "+", "-7", "0005", "+0005", "12a", "a12", " 12", "12 ", "1_000",
        "18446744073709551615", "18446744073709551616", "+18446744073709551615",
        "99999999999999999999999999", "00000000000000000000000000000000007", "1e3", "0x10",
        "\u{661}\u{662}", "+-1", "++1", "1+", "184467440737095516150",
    ];
    for text in cases {
        assert_eq!(parse_u64(text), text.parse::<u64>().ok(), "for {:?}", text);
    }
    assert_eq!(parse_u64("1000"), Some(1000));
    assert_eq!(parse_u64("18446744073709551615"), Some(u64::MAX));
    assert_eq!(parse_u64("18446744073709551616"), None);
    assert_eq!(parse_u64("+5"), Some(5));
    assert_eq!(parse_u64(""), None);
}

#[test]
fn decimal_digits_are_written_without_leading_zeros() {
    for n in [0u64, 1, 9, 10, 11, 99, 100, 1002, 123456789, u64::MAX] {
        let mut out = String::from("n=");
        append_decimal(&mut out, n);
        assert_eq!(out, format!("n={}", n));
    }
}

#[test]
fn range_values() {
    assert_eq!(extract_part_range((0, 250)), "bytes=0-250");
    assert_eq!(extract_part_range((753, 1002)), "bytes=753-1002");
    assert_eq!(extract_part_range((u64::MAX, 0)), "bytes=18446744073709551615-0");
    assert_eq!(extract_start_range(0), "bytes=0-");
    assert_eq!(extract_start_range(4321), "bytes=4321-");
}

#[test]
fn text_is_compared_by_its_characters() {
    assert!(same_text("bytes", "bytes"));
    assert!(same_text("", ""));
    assert!(!same_text("bytes", "Bytes"));
    assert!(!same_text("bytes", "bytes "));
    assert!(!same_text("none", "bytes"));
    assert!(same_text("\u{1f600}x", "\u{1f600}x"));
    assert_eq!(chars_of("a\u{e9}\u{1f600}"), vec!['a', '\u{e9}', '\u{1f600}']);
}

#[test]
fn white_space_is_what_unicode_says() {
    for code in 0u32..=0x3100 {
        if let Some(c) = char::from_u32(code) {
            assert_eq!(is_whitespace(c), c.is_whitespace(), "for U+{:04X}", code);
        }
    }
    assert!(!is_whitespace('\u{feff}'));
    assert!(!is_whitespace('\u{200b}'));
}

#[test]
fn first_mark_is_found() {
    let text: Vec<char> = "a;b;c".chars().collect();
    assert_eq!(index_of(&text, ';'), 1);
    assert_eq!(index_of(&text, 'c'), 4);
    assert_eq!(index_of(&text, 'z'), 5);
    assert_eq!(index_of(&vec![], ';'), 0);
}

#[test]
fn trimmed_text_is_compared() {
    let core: Vec<char> = "ab".chars().collect();
    let check = |text: &str, end: usize| {
        let chars: Vec<char> = text.chars().collect();
        let expected = chars[..end].iter().collect::<String>().trim() == "ab";
        assert_eq!(trims_to(&chars, end, &core), expected, "for {:?} up to {}", text, end);
        expected
    };
    assert!(check("ab", 2));
    assert!(check("  ab\t\n", 6));
    assert!(check("  ab  x", 6));
    assert!(!check("  ab  x", 7));
    assert!(!check("a b", 3));
    assert!(!check("ab", 1));
    assert!(!check("", 0));
    assert!(!check("   ", 3));
    assert!(!check("abab", 4));
    assert!(!check("xab", 3));
}

#[test]
fn fetch_requests_follow_the_mode() {
    let ranges = vec![(100u64, 249u64), (350, 499), (600, 749), (800, 999)];
    let plain = |mode: HttpDownloadMode, ranges: &Vec<(u64, u64)>| {
        fetch_requests(&mode, ranges)
            .into_iter()
            .map(|request| (request.index, request.start, request.range))
            .collect::<Vec<_>>()
    };
    assert_eq!(
        plain(HttpDownloadMode::ResumableMultithread, &ranges),
        vec![
            (0, 100, Some(String::from("bytes=100-249"))),
            (1, 350, Some(String::from("bytes=350-499"))),
            (2, 600, Some(String::from("bytes=600-749"))),
            (3, 800, Some(String::from("bytes=800-999"))),
        ]
    );
    assert_eq!(
        plain(HttpDownloadMode::ResumableStream, &vec![(4321, 0)]),
        vec![(0, 4321, Some(String::from("bytes=4321-")))]
    );
    assert_eq!(plain(HttpDownloadMode::NonResumable, &vec![]), vec![(0, 0, None)]);
    assert_eq!(plain(HttpDownloadMode::ResumableMultithread, &vec![]), vec![]);
}
