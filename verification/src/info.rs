//! What is known about the resource being downloaded.

use vstd::prelude::*;
use crate::filename_utils::{
    extract_filename, is_admissible_filename, spec_filename, spec_filename_from_header,
    spec_filename_from_url, spec_is_html_type,
};
use crate::text::{option_str_text, parse_u64, same_text, spec_parse_u64};

verus! {

/// The value of `Accept-Ranges` that stands for a resumable resource.
pub const ACCEPT_RANGES_BYTES: &'static str = "bytes";

/// The content length that a `Content-Length` header gives.
pub open spec fn spec_header_content_length(content_length: Option<Seq<char>>) -> Option<u64> {
    match content_length {
        Some(text) => spec_parse_u64(text),
        None => None,
    }
}

/// Whether an `Accept-Ranges` header says that byte ranges are served.
pub open spec fn spec_header_is_resumable(accept_ranges: Option<Seq<char>>) -> bool {
    match accept_ranges {
        Some(text) => text == ACCEPT_RANGES_BYTES@,
        None => false,
    }
}

/// Name, length and resumability of the resource, and the number of bytes
/// received so far.
#[derive(Debug)]
pub struct HttpDownloadInfo {
    filename: String,
    content_length: Option<u64>,
    is_resumable: bool,
    downloaded_bytes: u64,
}

impl HttpDownloadInfo {
    /// The file name, as a sequence of characters.
    pub closed spec fn spec_filename(&self) -> Seq<char> {
        self.filename@
    }

    /// The length of the resource, where the server gave one.
    pub closed spec fn spec_content_length(&self) -> Option<u64> {
        self.content_length
    }

    /// Whether the server serves byte ranges.
    pub closed spec fn spec_is_resumable(&self) -> bool {
        self.is_resumable
    }

    /// The number of bytes received so far.
    pub closed spec fn spec_downloaded_bytes(&self) -> u64 {
        self.downloaded_bytes
    }

    /// An info with an empty name, no length, not resumable, nothing received.
    pub fn default() -> (r: Self)
        ensures
            r.spec_filename() == Seq::<char>::empty(),
            r.spec_content_length() is None,
            !r.spec_is_resumable(),
            r.spec_downloaded_bytes() == 0,
    {
        Self { filename: String::new(), content_length: None, is_resumable: false, downloaded_bytes: 0 }
    }

    /// What a HEAD probe found out: the name from the URL and the
    /// `Content-Disposition` and `Content-Type` headers, the length from
    /// `Content-Length`, the resumability from `Accept-Ranges`. Each header
    /// is given as its text, or as none where the server did not send it
    /// or sent something that is no text.
    pub fn from_headers(
        raw_url: &str,
        content_disposition: Option<&str>,
        content_type: Option<&str>,
        content_length: Option<&str>,
        accept_ranges: Option<&str>,
    ) -> (r: Self)
        ensures
            is_admissible_filename(
                r.spec_filename(),
                spec_filename_from_header(option_str_text(content_disposition)) is Some,
                spec_filename_from_url(raw_url@) is Some,
                spec_is_html_type(option_str_text(content_type)),
            ),
            spec_filename(
                spec_filename_from_header(option_str_text(content_disposition)),
                spec_filename_from_url(raw_url@),
                spec_is_html_type(option_str_text(content_type)),
            ) matches Some(name) ==> r.spec_filename() == name,
            r.spec_content_length() == spec_header_content_length(option_str_text(content_length)),
            r.spec_is_resumable() == spec_header_is_resumable(option_str_text(accept_ranges)),
            r.spec_downloaded_bytes() == 0,
    {
        HttpDownloadInfo::default().extract_and_set_filename(
            raw_url,
            content_disposition,
            content_type,
        ).extract_and_set_content_length(content_length).extract_and_set_is_resumable(
            accept_ranges,
        )
    }

    /// What a state file says of the resource: the length, and that it is
    /// resumable where the file counts at least one task.
    pub fn from_state(filename: String, content_length: Option<u64>, tasks_count: u8) -> (r: Self)
        ensures
            r.spec_filename() == filename@,
            r.spec_content_length() == content_length,
            r.spec_is_resumable() == (tasks_count > 0),
            r.spec_downloaded_bytes() == 0,
    {
        HttpDownloadInfo::default().set_filename(filename).set_content_length(
            content_length,
        ).set_is_resumable(tasks_count > 0)
    }

    /// Names the file from the URL and from the texts of the
    /// `Content-Disposition` and `Content-Type` headers, as
    /// `extract_filename` does.
    pub fn extract_and_set_filename(
        self,
        raw_url: &str,
        content_disposition: Option<&str>,
        content_type: Option<&str>,
    ) -> (r: Self)
        ensures
            is_admissible_filename(
                r.spec_filename(),
                spec_filename_from_header(option_str_text(content_disposition)) is Some,
                spec_filename_from_url(raw_url@) is Some,
                spec_is_html_type(option_str_text(content_type)),
            ),
            spec_filename(
                spec_filename_from_header(option_str_text(content_disposition)),
                spec_filename_from_url(raw_url@),
                spec_is_html_type(option_str_text(content_type)),
            ) matches Some(name) ==> r.spec_filename() == name,
            r.spec_content_length() == self.spec_content_length(),
            r.spec_is_resumable() == self.spec_is_resumable(),
            r.spec_downloaded_bytes() == self.spec_downloaded_bytes(),
    {
        let mut info = self;
        info.filename = extract_filename(raw_url, content_disposition, content_type);
        info
    }

    /// Takes the content length from the text of the `Content-Length`
    /// header: the number that it spells, or none where the header is
    /// missing or spells no `u64`.
    pub fn extract_and_set_content_length(self, content_length: Option<&str>) -> (r: Self)
        ensures
            r.spec_content_length() == spec_header_content_length(option_str_text(content_length)),
            r.spec_filename() == self.spec_filename(),
            r.spec_is_resumable() == self.spec_is_resumable(),
            r.spec_downloaded_bytes() == self.spec_downloaded_bytes(),
    {
        let mut info = self;
        info.content_length = match content_length {
            Some(text) => parse_u64(text),
            None => None,
        };
        info
    }

    /// Takes the resumability from the text of the `Accept-Ranges` header:
    /// the resource is resumable where the header says `bytes`.
    pub fn extract_and_set_is_resumable(self, accept_ranges: Option<&str>) -> (r: Self)
        ensures
            r.spec_is_resumable() == spec_header_is_resumable(option_str_text(accept_ranges)),
            r.spec_filename() == self.spec_filename(),
            r.spec_content_length() == self.spec_content_length(),
            r.spec_downloaded_bytes() == self.spec_downloaded_bytes(),
    {
        let mut info = self;
        info.is_resumable = match accept_ranges {
            Some(text) => same_text(text, ACCEPT_RANGES_BYTES),
            None => false,
        };
        info
    }

    /// Replaces the file name.
    pub fn set_filename(self, filename: String) -> (r: Self)
        ensures
            r.spec_filename() == filename@,
            r.spec_content_length() == self.spec_content_length(),
            r.spec_is_resumable() == self.spec_is_resumable(),
            r.spec_downloaded_bytes() == self.spec_downloaded_bytes(),
    {
        let mut info = self;
        info.filename = filename;
        info
    }

    /// Replaces the content length.
    pub fn set_content_length(self, content_length: Option<u64>) -> (r: Self)
        ensures
            r.spec_filename() == self.spec_filename(),
            r.spec_content_length() == content_length,
            r.spec_is_resumable() == self.spec_is_resumable(),
            r.spec_downloaded_bytes() == self.spec_downloaded_bytes(),
    {
        let mut info = self;
        info.content_length = content_length;
        info
    }

    /// Replaces the resumability flag.
    pub fn set_is_resumable(self, is_resumable: bool) -> (r: Self)
        ensures
            r.spec_filename() == self.spec_filename(),
            r.spec_content_length() == self.spec_content_length(),
            r.spec_is_resumable() == is_resumable,
            r.spec_downloaded_bytes() == self.spec_downloaded_bytes(),
    {
        let mut info = self;
        info.is_resumable = is_resumable;
        info
    }

    /// Counts `number` more bytes as received. The counter never goes down.
    pub fn add_to_downloaded_bytes(&mut self, number: u64)
        requires
            old(self).spec_downloaded_bytes() + number <= u64::MAX,
        ensures
            final(self).spec_downloaded_bytes() == old(self).spec_downloaded_bytes() + number,
            final(self).spec_downloaded_bytes() >= old(self).spec_downloaded_bytes(),
            final(self).spec_filename() == old(self).spec_filename(),
            final(self).spec_content_length() == old(self).spec_content_length(),
            final(self).spec_is_resumable() == old(self).spec_is_resumable(),
    {
        self.downloaded_bytes = self.downloaded_bytes + number;
    }

    /// The file name.
    pub fn filename(&self) -> (r: &str)
        ensures
            r@ == self.spec_filename(),
    {
        self.filename.as_str()
    }

    /// The length of the resource, where the server gave one.
    pub fn content_length(&self) -> (r: Option<u64>)
        ensures
            r == self.spec_content_length(),
    {
        self.content_length
    }

    /// Whether the server serves byte ranges.
    pub fn is_resumable(&self) -> (r: bool)
        ensures
            r == self.spec_is_resumable(),
    {
        self.is_resumable
    }

    /// The number of bytes received so far.
    pub fn downloaded_bytes(&self) -> (r: u64)
        ensures
            r == self.spec_downloaded_bytes(),
    {
        self.downloaded_bytes
    }
}

} // verus!
