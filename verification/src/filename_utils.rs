//! Choosing the name of the data file from what the server says in
//! `Content-Disposition`, from the URL, and from the content type.

use percent_encoding::percent_decode_str;
use regex::Regex;
use std::path::Path;
use vstd::prelude::*;
use vstd::string::*;
use vstd::utf8::*;
use crate::text::{
    chars_of, index_of, option_str_text, option_text, spec_index_of, spec_trims_to, trims_to,
};

verus! {

/// The pattern that finds a file name in a `Content-Disposition` value:
/// `filename=` or `filename*=`, an optional `UTF-8''`, and then either a
/// quoted name, which is group 1, or a bare one, which is group 2.
pub const HEADER_FILENAME_PATTERN: &'static str =
    r#"filename\*?=(?:UTF-8''|)?(?:"((?:[^"\\]|\\.)*)"|([^;\s]+))"#;

/// The pattern that finds the last path segment of a URL, which is group 1,
/// before an optional slash and an optional query, fragment or parameter.
pub const URL_FILENAME_PATTERN: &'static str = r"/([^/?#;]+)/?(?:[?#;].*)?$";

/// The name that a download gets where neither the headers nor the URL
/// give one.
pub const FALLBACK_FILENAME: &'static str = "download";

/// What is appended to the name of a resource that is an HTML page.
pub const HTML_SUFFIX: &'static str = ".html";

/// The content type, before any parameter, of an HTML page.
pub const HTML_CONTENT_TYPE: &'static str = "text/html";

/// What `Regex::captures` finds of a pattern in a text, the pattern being
/// compiled by `Regex::new`: nothing where the pattern is not valid or
/// does not match, else the text of each group of the leftmost match, group
/// 0 being the whole match, with none for a group that took no part in it.
pub uninterp spec fn regex_captures(pattern: Seq<char>, haystack: Seq<char>) -> Option<
    Seq<Option<Seq<char>>>,
>;

/// The groups of a match, each taken as the characters it holds.
pub open spec fn group_texts(groups: Seq<Option<String>>) -> Seq<Option<Seq<char>>> {
    Seq::new(
        groups.len(),
        |i: int|
            match groups[i] {
                Some(text) => Some(text@),
                None => None,
            },
    )
}

/// `Regex::new` compiles the pattern and `Regex::captures` searches the
/// text for its leftmost match; the groups of the match are handed out,
/// each as an owned string.
#[verifier::external_body]
fn captures(pattern: &str, haystack: &str) -> (r: Option<Vec<Option<String>>>)
    ensures
        match r {
            Some(groups) => Some(group_texts(groups@)),
            None => None,
        } == regex_captures(pattern@, haystack@),
{
    let regex = Regex::new(pattern).ok()?;
    let found = regex.captures(haystack)?;
    let mut groups = Vec::new();
    for group in found.iter() {
        groups.push(
            match group {
                Some(part) => Some(part.as_str().to_owned()),
                None => None,
            },
        );
    }
    Some(groups)
}

/// The value of a hexadecimal digit.
pub open spec fn spec_hex_value(byte: u8) -> Option<u8> {
    if '0' as u8 <= byte <= '9' as u8 {
        Some((byte - '0' as u8) as u8)
    } else if 'a' as u8 <= byte <= 'f' as u8 {
        Some((byte - 'a' as u8 + 10) as u8)
    } else if 'A' as u8 <= byte <= 'F' as u8 {
        Some((byte - 'A' as u8 + 10) as u8)
    } else {
        None
    }
}

/// Percent-decoding of bytes: a `%` followed by two hexadecimal digits
/// becomes the byte that they spell; every other byte stays.
pub open spec fn spec_percent_decode(bytes: Seq<u8>) -> Seq<u8>
    decreases bytes.len(),
{
    if bytes.len() == 0 {
        Seq::empty()
    } else if bytes[0] == '%' as u8 && bytes.len() >= 3 && spec_hex_value(bytes[1]) is Some
        && spec_hex_value(bytes[2]) is Some {
        seq![(spec_hex_value(bytes[1]).unwrap() * 16 + spec_hex_value(bytes[2]).unwrap()) as u8]
            + spec_percent_decode(bytes.skip(3))
    } else {
        seq![bytes[0]] + spec_percent_decode(bytes.skip(1))
    }
}

/// The text that `String::from_utf8_lossy` makes of bytes: the text that
/// they encode where they are UTF-8; otherwise each malformed stretch is
/// replaced by U+FFFD.
pub uninterp spec fn utf8_lossy(bytes: Seq<u8>) -> Seq<char>;

/// `percent_encoding::percent_decode_str` yields the percent-decoded bytes
/// of a text.
#[verifier::external_body]
fn percent_decode_bytes(input: &str) -> (r: Vec<u8>)
    ensures
        r@ == spec_percent_decode(encode_utf8(input@)),
{
    percent_decode_str(input).collect()
}

/// `String::from_utf8_lossy` turns bytes into text; bytes that are UTF-8
/// give the text that they encode.
#[verifier::external_body]
fn text_from_utf8_lossy(bytes: &Vec<u8>) -> (r: String)
    ensures
        r@ == utf8_lossy(bytes@),
        valid_utf8(bytes@) ==> r@ == decode_utf8(bytes@),
{
    String::from_utf8_lossy(bytes).into_owned()
}

/// Whether a name is one that every platform reads as a single path
/// component: it is not empty, it is neither `.` nor `..`, and it holds no
/// `/`, no `\` and no `:`, which are what separates components or marks a
/// prefix on some platform.
pub open spec fn spec_is_plain_name(name: Seq<char>) -> bool {
    &&& name.len() > 0
    &&& name != seq!['.']
    &&& name != seq!['.', '.']
    &&& forall|i: int|
        0 <= i < name.len() ==> name[i] != '/' && name[i] != '\\' && name[i] != ':'
}

/// The position of the last `.` of a name that is not its first character,
/// or 0 where there is none.
pub open spec fn spec_last_dot(name: Seq<char>) -> int
    decreases name.len(),
{
    if name.len() <= 1 {
        0
    } else if name.last() == '.' {
        name.len() - 1
    } else {
        spec_last_dot(name.drop_last())
    }
}

/// The stem of a single path component: what stands before its last `.`,
/// or the whole of it where it has none but, at most, a leading one.
pub open spec fn spec_plain_stem(name: Seq<char>) -> Seq<char> {
    if spec_last_dot(name) > 0 {
        name.take(spec_last_dot(name))
    } else {
        name
    }
}

/// The extension of a single path component: what stands behind its last
/// `.`, or none where it has no `.` but, at most, a leading one.
pub open spec fn spec_plain_extension(name: Seq<char>) -> Option<Seq<char>> {
    if spec_last_dot(name) > 0 {
        Some(name.skip(spec_last_dot(name) + 1))
    } else {
        None
    }
}

/// The last dot lies inside the name, so that the stem of a name that is
/// not empty is not empty either.
pub proof fn lemma_last_dot_within(name: Seq<char>)
    ensures
        0 <= spec_last_dot(name),
        name.len() > 0 ==> spec_last_dot(name) < name.len(),
        name.len() > 0 ==> spec_plain_stem(name).len() > 0,
    decreases name.len(),
{
    if name.len() > 1 && name.last() != '.' {
        lemma_last_dot_within(name.drop_last());
    }
}

/// `Path::file_stem` gives the file name, which is the last component of a
/// path, without its extension. What counts as a component depends on the
/// platform; of a name that every platform reads as one component the
/// result is the whole name where it has no `.` or only a leading one, and
/// else what stands before the last `.`. Of other names nothing is claimed.
#[verifier::external_body]
fn path_file_stem(name: &str) -> (r: Option<String>)
    ensures
        spec_is_plain_name(name@) ==> option_text(r) == Some(spec_plain_stem(name@)),
{
    match Path::new(name).file_stem() {
        Some(stem) => match stem.to_str() {
            Some(text) => Some(text.to_owned()),
            None => None,
        },
        None => None,
    }
}

/// `Path::extension` gives the extension of the file name, which is the
/// last component of a path. What counts as a component depends on the
/// platform; of a name that every platform reads as one component the
/// result is none where it has no `.` or only a leading one, and else what
/// stands behind the last `.`. Of other names nothing is claimed.
#[verifier::external_body]
fn path_extension(name: &str) -> (r: Option<String>)
    ensures
        spec_is_plain_name(name@) ==> option_text(r) == spec_plain_extension(name@),
{
    match Path::new(name).extension() {
        Some(extension) => match extension.to_str() {
            Some(text) => Some(text.to_owned()),
            None => None,
        },
        None => None,
    }
}

/// Group `index` of a match, where the match has such a group and the
/// group took part in it.
pub open spec fn spec_group(groups: Seq<Option<Seq<char>>>, index: int) -> Option<Seq<char>> {
    if 0 <= index < groups.len() {
        groups[index]
    } else {
        None
    }
}

/// The file name in a `Content-Disposition` value: the quoted name that
/// the pattern finds, else the bare one.
pub open spec fn spec_filename_from_header(content_disposition: Option<Seq<char>>) -> Option<
    Seq<char>,
> {
    match content_disposition {
        None => None,
        Some(value) => match regex_captures(HEADER_FILENAME_PATTERN@, value) {
            None => None,
            Some(groups) => match spec_group(groups, 1) {
                Some(quoted) => Some(quoted),
                None => spec_group(groups, 2),
            },
        },
    }
}

/// The last path segment of a URL, as the pattern finds it.
pub open spec fn spec_filename_from_url(raw_url: Seq<char>) -> Option<Seq<char>> {
    match regex_captures(URL_FILENAME_PATTERN@, raw_url) {
        None => None,
        Some(groups) => spec_group(groups, 1),
    }
}

/// Hands out group `index` of a match.
fn group(groups: &Vec<Option<String>>, index: usize) -> (r: Option<String>)
    ensures
        option_text(r) == spec_group(group_texts(groups@), index as int),
{
    if index < groups.len() {
        match &groups[index] {
            Some(text) => Some(text.clone()),
            None => None,
        }
    } else {
        None
    }
}

/// Finds the file name in the text of a `Content-Disposition` header.
pub fn extract_filename_from_header(content_disposition: Option<&str>) -> (r: Option<String>)
    ensures
        option_text(r) == spec_filename_from_header(
            option_str_text(content_disposition),
        ),
{
    let value = match content_disposition {
        Some(value) => value,
        None => {
            return None;
        },
    };
    match captures(HEADER_FILENAME_PATTERN, value) {
        Some(groups) => match group(&groups, 1) {
            Some(quoted) => Some(quoted),
            None => group(&groups, 2),
        },
        None => None,
    }
}

/// Finds the last path segment of a URL.
pub fn extract_filename_from_url(raw_url: &str) -> (r: Option<String>)
    ensures
        option_text(r) == spec_filename_from_url(raw_url@),
{
    match captures(URL_FILENAME_PATTERN, raw_url) {
        Some(groups) => group(&groups, 1),
        None => None,
    }
}

/// A text with its percent-encoded bytes decoded, read as UTF-8, with
/// U+FFFD where the decoded bytes are not UTF-8.
pub open spec fn spec_percent_decoded(input: Seq<char>) -> Seq<char> {
    utf8_lossy(spec_percent_decode(encode_utf8(input)))
}

/// Decodes the percent-encoded bytes of a text.
pub fn percent_decode(input: &str) -> (r: String)
    ensures
        r@ == spec_percent_decoded(input@),
        valid_utf8(spec_percent_decode(encode_utf8(input@))) ==> r@ == decode_utf8(
            spec_percent_decode(encode_utf8(input@)),
        ),
{
    let bytes = percent_decode_bytes(input);
    text_from_utf8_lossy(&bytes)
}

/// Whether a content type, before its first `;` and without the white
/// space around it, is `text/html`.
pub open spec fn spec_is_html_type(content_type: Option<Seq<char>>) -> bool {
    match content_type {
        None => false,
        Some(value) => spec_trims_to(
            value.take(spec_index_of(value, ';')),
            HTML_CONTENT_TYPE@,
        ),
    }
}

/// Tests whether the text of a `Content-Type` header names an HTML page.
pub fn is_html_type(content_type: Option<&str>) -> (r: bool)
    ensures
        r == spec_is_html_type(
            option_str_text(content_type),
        ),
{
    match content_type {
        None => false,
        Some(value) => {
            let chars = chars_of(value);
            let end = index_of(&chars, ';');
            let core = chars_of(HTML_CONTENT_TYPE);
            proof {
                reveal_strlit("text/html");
            }
            trims_to(&chars, end, &core)
        },
    }
}

/// Splits a file name into stem and extension, as `std::path::Path` sees
/// them on this platform. No name gives neither. A name that every
/// platform reads as one path component is split at its last `.`, unless
/// that is its first character.
pub fn split_filename(filename: Option<String>) -> (r: (Option<String>, Option<String>))
    ensures
        filename is None ==> r.0 is None && r.1 is None,
        filename matches Some(name) ==> (spec_is_plain_name(name@) ==> option_text(r.0) == Some(
            spec_plain_stem(name@),
        ) && option_text(r.1) == spec_plain_extension(name@)),
{
    match filename {
        Some(name) => (path_file_stem(name.as_str()), path_extension(name.as_str())),
        None => (None, None),
    }
}

/// The name that a stem and an extension make: the stem alone where the
/// extension is missing or empty, else stem, dot, extension. No stem makes
/// no name.
pub open spec fn spec_join_filename(stem: Option<Seq<char>>, extension: Option<Seq<char>>) -> Option<
    Seq<char>,
> {
    match stem {
        None => None,
        Some(stem) => match extension {
            Some(extension) if extension.len() > 0 => Some(stem + seq!['.'] + extension),
            _ => Some(stem),
        },
    }
}

/// Puts a stem and an extension together.
pub fn join_filename(stem: Option<String>, extension: Option<String>) -> (r: Option<String>)
    ensures
        option_text(r) == spec_join_filename(
            option_text(stem),
            option_text(extension),
        ),
{
    let mut name = match stem {
        Some(stem) => stem,
        None => {
            return None;
        },
    };
    match extension {
        Some(extension) => {
            if !extension.as_str().is_empty() {
                proof {
                    reveal_strlit(".");
                }
                name.append(".");
                name.append(extension.as_str());
                assert(name@ =~= stem->0@ + seq!['.'] + extension@);
            }
        },
        None => {},
    }
    Some(name)
}

/// The name of the data file before percent-decoding: the first of the
/// name from the header, the name from the URL and `download` that is
/// there and not empty, with `.html` appended for an HTML page.
pub open spec fn spec_raw_filename(
    header_name: Option<Seq<char>>,
    url_name: Option<Seq<char>>,
    is_html: bool,
) -> Seq<char> {
    let chosen = match header_name {
        Some(name) if name.len() > 0 => name,
        _ => match url_name {
            Some(name) if name.len() > 0 => name,
            _ => FALLBACK_FILENAME@,
        },
    };
    if is_html {
        chosen + HTML_SUFFIX@
    } else {
        chosen
    }
}

/// Chooses the name of the data file from the name that the header gave,
/// the name that the URL gave, and whether the resource is an HTML page,
/// and decodes what is percent-encoded in it.
pub fn choose_filename(header_name: Option<String>, url_name: Option<String>, is_html: bool) -> (r:
    String)
    ensures
        r@ == spec_percent_decoded(
            spec_raw_filename(option_text(header_name), option_text(url_name), is_html),
        ),
        ({
            let decoded = spec_percent_decode(
                encode_utf8(
                    spec_raw_filename(option_text(header_name), option_text(url_name), is_html),
                ),
            );
            valid_utf8(decoded) ==> r@ == decode_utf8(decoded)
        }),
{
    let mut chosen: Option<String> = None;
    if let Some(name) = header_name {
        if !name.as_str().is_empty() {
            chosen = Some(name);
        }
    }
    if chosen.is_none() {
        if let Some(name) = url_name {
            if !name.as_str().is_empty() {
                chosen = Some(name);
            }
        }
    }
    let mut raw_filename: String = match chosen {
        Some(name) => name,
        None => String::from_str(FALLBACK_FILENAME),
    };
    if is_html {
        raw_filename.append(HTML_SUFFIX);
    }
    percent_decode(raw_filename.as_str())
}

/// Whether `name` is one of the names that `choose_filename` can give where
/// the platform decides how the names found are split: the name chosen from
/// some name from the header, which there is only where the header held
/// one, from some name from the URL, which there is only where the URL held
/// one, and from the kind of the resource. Where neither held a name, only
/// the fallback name is left.
pub open spec fn is_admissible_filename(
    name: Seq<char>,
    found_in_header: bool,
    found_in_url: bool,
    is_html: bool,
) -> bool {
    exists|header_name: Option<Seq<char>>, url_name: Option<Seq<char>>|
        {
            &&& header_name is Some ==> found_in_header
            &&& url_name is Some ==> found_in_url
            &&& name == spec_percent_decoded(
                #[trigger] spec_raw_filename(header_name, url_name, is_html),
            )
        }
}

/// The name that a single path component makes once it is split and put
/// together again: the component itself, but without a `.` at its end.
pub open spec fn spec_plain_filename(name: Seq<char>) -> Option<Seq<char>> {
    spec_join_filename(Some(spec_plain_stem(name)), spec_plain_extension(name))
}

/// The name of the data file, where the names found do not leave it to the
/// platform: the name that the header holds, taken whole, where every
/// platform reads it as one path component; without a name in the header,
/// the name that the URL holds, on the same condition; and the fallback
/// name where neither holds one. In each case `.html` is appended for an
/// HTML page and what is percent-encoded is decoded. Otherwise none.
pub open spec fn spec_filename(
    header: Option<Seq<char>>,
    url: Option<Seq<char>>,
    is_html: bool,
) -> Option<Seq<char>> {
    match header {
        Some(name) => if spec_is_plain_name(name) {
            Some(spec_percent_decoded(spec_raw_filename(spec_plain_filename(name), None, is_html)))
        } else {
            None
        },
        None => match url {
            Some(name) => if spec_is_plain_name(name) {
                Some(
                    spec_percent_decoded(
                        spec_raw_filename(None, spec_plain_filename(name), is_html),
                    ),
                )
            } else {
                None
            },
            None => Some(spec_percent_decoded(spec_raw_filename(None, None, is_html))),
        },
    }
}

/// Names the data file of a download from its URL and from the texts of the
/// `Content-Disposition` and `Content-Type` headers, where the server sent
/// them. The name is the one that `choose_filename` gives for the names
/// found in the header and in the URL, each cut down to the stem and the
/// extension of its last path component as this platform sees them. A name
/// in the header that is a single path component on every platform is
/// taken whole; without a name in the header, so is such a name in the URL;
/// where neither holds a name, the result is `download`; and `.html` is
/// appended for an HTML page.
pub fn extract_filename(
    raw_url: &str,
    content_disposition: Option<&str>,
    content_type: Option<&str>,
) -> (r: String)
    ensures
        is_admissible_filename(
            r@,
            spec_filename_from_header(option_str_text(content_disposition)) is Some,
            spec_filename_from_url(raw_url@) is Some,
            spec_is_html_type(option_str_text(content_type)),
        ),
        spec_filename(
            spec_filename_from_header(option_str_text(content_disposition)),
            spec_filename_from_url(raw_url@),
            spec_is_html_type(option_str_text(content_type)),
        ) matches Some(name) ==> r@ == name,
{
    let header_found = extract_filename_from_header(content_disposition);
    let url_found = extract_filename_from_url(raw_url);
    proof {
        if header_found is Some {
            lemma_last_dot_within(header_found->0@);
        }
        if url_found is Some {
            lemma_last_dot_within(url_found->0@);
        }
    }
    let (header_stem, header_extension) = split_filename(header_found);
    let (url_stem, url_extension) = split_filename(url_found);
    let header_name = join_filename(header_stem, header_extension);
    let url_name = join_filename(url_stem, url_extension);
    let is_html = is_html_type(content_type);
    let ghost header_text = option_text(header_name);
    let ghost url_text = option_text(url_name);
    let name = choose_filename(header_name, url_name, is_html);
    assert(name@ == spec_percent_decoded(spec_raw_filename(header_text, url_text, is_html)));
    name
}

} // verus!
