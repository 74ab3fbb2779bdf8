use bytefetch::filename_utils::{
    choose_filename, extract_filename, extract_filename_from_header, extract_filename_from_url,
    is_html_type, join_filename, percent_decode, split_filename,
};

#[test]
fn test_extract_filename_from_header() {
    let content_disposition = Some("attachment; filename=example.txt");
    let result = extract_filename_from_header(content_disposition);
    assert_eq!(result, Some(String::from("example.txt")).to_owned());
}

#[test]
fn test_extract_filename_from_url() {
    let url = "https://test.com/test.mp4";
    let result = extract_filename_from_url(&url);
    assert_eq!(result, Some(String::from("test.mp4")));
}

#[test]
fn test_percent_decode() {
    let url = "100%25_complete.mp3";
    let result = percent_decode(&url);
    assert_eq!(result, String::from("100%_complete.mp3"));
}

#[test]
fn header_without_filename_gives_none() {
    assert_eq!(extract_filename_from_header(Some("inline")), None);
    assert_eq!(extract_filename_from_header(None), None);
}

#[test]
fn header_quoted_filename_is_group_one() {
    let result = extract_filename_from_header(Some("attachment; filename=\"my file.txt\""));
    assert_eq!(result, Some(String::from("my file.txt")));
}

#[test]
fn header_extended_filename_is_found() {
    let result = extract_filename_from_header(Some("attachment; filename*=UTF-8''na%C3%AFve.txt"));
    assert_eq!(result, Some(String::from("na%C3%AFve.txt")));
}

#[test]
fn url_filename_stops_at_query() {
    assert_eq!(
        extract_filename_from_url("https://t/path/file.mp4?a=1"),
        Some(String::from("file.mp4"))
    );
    assert_eq!(extract_filename_from_url("no slashes here"), None);
}

#[test]
fn percent_decode_keeps_malformed_escapes() {
    assert_eq!(percent_decode("50%"), String::from("50%"));
    assert_eq!(percent_decode("a%2"), String::from("a%2"));
    assert_eq!(percent_decode("a%zzb"), String::from("a%zzb"));
    assert_eq!(percent_decode("a%20b%2Fc"), String::from("a b/c"));
}

#[test]
fn percent_decode_replaces_invalid_utf8() {
    assert_eq!(percent_decode("%FF"), String::from("\u{FFFD}"));
    assert_eq!(percent_decode("na%C3%AFve"), String::from("na\u{ef}ve"));
}

#[test]
fn html_type_is_recognised_before_parameters() {
    assert!(is_html_type(Some("text/html")));
    assert!(is_html_type(Some("text/html; charset=utf-8")));
    assert!(is_html_type(Some("  text/html \t;charset=utf-8")));
    assert!(is_html_type(Some("\u{a0}text/html\u{3000}")));
    assert!(!is_html_type(Some("text/htmlx")));
    assert!(!is_html_type(Some("text/ html")));
    assert!(!is_html_type(Some("application/json")));
    assert!(!is_html_type(Some("")));
    assert!(!is_html_type(Some(";text/html")));
    assert!(!is_html_type(None));
}

#[test]
fn split_filename_gives_stem_and_extension() {
    assert_eq!(
        split_filename(Some(String::from("archive.tar.gz"))),
        (Some(String::from("archive.tar")), Some(String::from("gz")))
    );
    assert_eq!(split_filename(Some(String::from("page"))), (Some(String::from("page")), None));
    assert_eq!(split_filename(None), (None, None));
}

#[test]
fn join_filename_puts_the_dot_back() {
    assert_eq!(
        join_filename(Some(String::from("a")), Some(String::from("txt"))),
        Some(String::from("a.txt"))
    );
    assert_eq!(join_filename(Some(String::from("a")), Some(String::new())), Some(String::from("a")));
    assert_eq!(join_filename(Some(String::from("a")), None), Some(String::from("a")));
    assert_eq!(join_filename(None, Some(String::from("txt"))), None);
}

#[test]
fn choose_filename_takes_the_first_name_that_is_there() {
    assert_eq!(
        choose_filename(Some(String::from("h.bin")), Some(String::from("u.bin")), false),
        "h.bin"
    );
    assert_eq!(choose_filename(None, Some(String::from("u.bin")), false), "u.bin");
    assert_eq!(choose_filename(Some(String::new()), Some(String::from("u.bin")), false), "u.bin");
    assert_eq!(choose_filename(None, None, false), "download");
    assert_eq!(choose_filename(None, None, true), "download.html");
    assert_eq!(choose_filename(Some(String::from("a%20b")), None, true), "a b.html");
}

#[test]
fn extract_filename_follows_header_then_url_then_fallback() {
    assert_eq!(
        extract_filename(
            "https://t/path/file.mp4?a=1",
            Some("attachment; filename=example.txt"),
            None
        ),
        "example.txt"
    );
    assert_eq!(extract_filename("https://t/path/file.mp4?a=1", None, None), "file.mp4");
    assert_eq!(
        extract_filename("https://t/page", None, Some("text/html; charset=utf-8")),
        "page.html"
    );
    assert_eq!(extract_filename("nothing", None, None), "download");
    assert_eq!(extract_filename("https://t/100%25_complete.mp3", None, None), "100%_complete.mp3");
}

fn plain_split(name: &str) -> (Option<String>, Option<String>) {
    let chars: Vec<char> = name.chars().collect();
    let mut last_dot = 0;
    for (index, c) in chars.iter().enumerate() {
        if *c == '.' && index > 0 {
            last_dot = index;
        }
    }
    if last_dot > 0 {
        (
            Some(chars[..last_dot].iter().collect()),
            Some(chars[last_dot + 1..].iter().collect()),
        )
    } else {
        (Some(name.to_string()), None)
    }
}

#[test]
fn a_single_path_component_is_split_at_its_last_dot() {
    let names = [
        "a", ".a", "a.", "a.b", "a.b.c", "...", "..a", ".a.b", "a..b", " ", "a b.txt",
        "\u{e9}.\u{fc}", "name.tar.gz", "x.", ".x.", "-", "~", "*?<>|\"", "con", "nul.txt",
        "a%2Fb.txt", ".bashrc", "report", "page", "file.mp4", "100%25_complete.mp3", "....",
        ". .", "\u{1f600}.\u{1f600}", "a\0b.c",
    ];
    for name in names {
        assert_eq!(split_filename(Some(name.to_string())), plain_split(name), "for {:?}", name);
    }
    assert_eq!(
        split_filename(Some(String::from("a.b.c"))),
        (Some(String::from("a.b")), Some(String::from("c")))
    );
    assert_eq!(
        split_filename(Some(String::from("foo."))),
        (Some(String::from("foo")), Some(String::new()))
    );
    assert_eq!(split_filename(Some(String::from(".bashrc"))), (Some(String::from(".bashrc")), None));
    assert_eq!(split_filename(Some(String::from("..."))), (Some(String::from("..")), Some(String::new())));
}

#[test]
fn names_that_are_no_single_component_have_no_file_name_of_their_own() {
    assert_eq!(split_filename(Some(String::new())), (None, None));
    assert_eq!(split_filename(Some(String::from(".."))), (None, None));
    assert_eq!(
        split_filename(Some(String::from("dir/file.txt"))),
        (Some(String::from("file")), Some(String::from("txt")))
    );
}

#[test]
fn the_header_name_is_taken_whole() {
    assert_eq!(
        extract_filename("https://t/x.pdf", Some("attachment; filename=report"), None),
        "report"
    );
    assert_eq!(
        extract_filename("https://t/x.pdf", Some("attachment; filename=report."), None),
        "report"
    );
    assert_eq!(
        extract_filename("https://t/x.pdf", Some("attachment; filename=\"a b.tar.gz\""), Some("text/html")),
        "a b.tar.gz.html"
    );
    assert_eq!(extract_filename("https://t/x.pdf", Some("inline"), None), "x.pdf");
    assert_eq!(extract_filename("https://t/.hidden", None, None), ".hidden");
}
