//! The `Range` header values that the fetch tasks send.

use vstd::prelude::*;
use vstd::string::*;
use crate::planner::HttpDownloadMode;
use crate::text::{append_decimal, option_text, spec_decimal_digits};

verus! {

/// What every range value begins with.
pub const RANGE_UNIT_PREFIX: &'static str = "bytes=";

/// What stands between the two ends of a range.
pub const RANGE_SEPARATOR: &'static str = "-";

/// The header value for the bytes `start` to `end`, both included.
pub open spec fn spec_part_range_value(start: u64, end: u64) -> Seq<char> {
    RANGE_UNIT_PREFIX@ + spec_decimal_digits(start as nat) + RANGE_SEPARATOR@ + spec_decimal_digits(
        end as nat,
    )
}

/// The header value for all bytes from `start` on.
pub open spec fn spec_start_range_value(start: u64) -> Seq<char> {
    RANGE_UNIT_PREFIX@ + spec_decimal_digits(start as nat) + RANGE_SEPARATOR@
}

/// Writes the `Range` value of a bounded segment, `bytes=START-END`.
pub fn extract_part_range(range: (u64, u64)) -> (r: String)
    ensures
        r@ == spec_part_range_value(range.0, range.1),
{
    let mut value = String::from_str(RANGE_UNIT_PREFIX);
    append_decimal(&mut value, range.0);
    value.append(RANGE_SEPARATOR);
    append_decimal(&mut value, range.1);
    value
}

/// Writes the `Range` value of an open-ended segment, `bytes=START-`.
pub fn extract_start_range(start: u64) -> (r: String)
    ensures
        r@ == spec_start_range_value(start),
{
    let mut value = String::from_str(RANGE_UNIT_PREFIX);
    append_decimal(&mut value, start);
    value.append(RANGE_SEPARATOR);
    value
}

/// What one fetch task asks of the server, and where its bytes go.
#[derive(Debug)]
pub struct FetchRequest {
    /// The number of the task, which is the number of its segment.
    pub index: usize,
    /// The file offset of the first byte that the task receives.
    pub start: u64,
    /// The value of the `Range` header, or none for a request without one.
    pub range: Option<String>,
}

/// A fetch request as plain values.
pub struct FetchRequestView {
    pub index: usize,
    pub start: u64,
    pub range: Option<Seq<char>>,
}

impl View for FetchRequest {
    type V = FetchRequestView;

    open spec fn view(&self) -> FetchRequestView {
        FetchRequestView { index: self.index, start: self.start, range: option_text(self.range) }
    }
}

/// The requests of a download: one without a range, from offset 0, where
/// the server serves no ranges; one open-ended range from the start of the
/// first range for a stream; and one bounded range for each range of a
/// multi-task download.
pub open spec fn spec_fetch_requests(mode: HttpDownloadMode, byte_ranges: Seq<(u64, u64)>) -> Seq<
    FetchRequestView,
> {
    match mode {
        HttpDownloadMode::NonResumable => seq![
            FetchRequestView { index: 0, start: 0, range: None },
        ],
        HttpDownloadMode::ResumableStream => seq![
            FetchRequestView {
                index: 0,
                start: byte_ranges[0].0,
                range: Some(spec_start_range_value(byte_ranges[0].0)),
            },
        ],
        HttpDownloadMode::ResumableMultithread => Seq::new(
            byte_ranges.len(),
            |i: int|
                FetchRequestView {
                    index: i as usize,
                    start: byte_ranges[i].0,
                    range: Some(spec_part_range_value(byte_ranges[i].0, byte_ranges[i].1)),
                },
        ),
    }
}

/// The views of a list of fetch requests.
pub open spec fn fetch_request_views(requests: Seq<FetchRequest>) -> Seq<FetchRequestView> {
    Seq::new(requests.len(), |i: int| requests[i]@)
}

/// Lists the requests that the fetch tasks of a download send, in the
/// order of the tasks.
pub fn fetch_requests(mode: &HttpDownloadMode, byte_ranges: &Vec<(u64, u64)>) -> (r: Vec<
    FetchRequest,
>)
    requires
        *mode == HttpDownloadMode::ResumableStream ==> byte_ranges@.len() >= 1,
    ensures
        fetch_request_views(r@) == spec_fetch_requests(*mode, byte_ranges@),
{
    let mut requests: Vec<FetchRequest> = Vec::new();
    match mode {
        HttpDownloadMode::NonResumable => {
            requests.push(FetchRequest { index: 0, start: 0, range: None });
        },
        HttpDownloadMode::ResumableStream => {
            let start: u64 = byte_ranges[0].0;
            requests.push(
                FetchRequest { index: 0, start, range: Some(extract_start_range(start)) },
            );
        },
        HttpDownloadMode::ResumableMultithread => {
            let mut index: usize = 0;
            while index < byte_ranges.len()
                invariant
                    index <= byte_ranges@.len(),
                    requests@.len() == index,
                    forall|i: int|
                        0 <= i < index ==> (#[trigger] requests@[i])@ == (FetchRequestView {
                            index: i as usize,
                            start: byte_ranges@[i].0,
                            range: Some(
                                spec_part_range_value(byte_ranges@[i].0, byte_ranges@[i].1),
                            ),
                        }),
                decreases byte_ranges@.len() - index,
            {
                let (start, end) = byte_ranges[index];
                requests.push(
                    FetchRequest { index, start, range: Some(extract_part_range((start, end))) },
                );
                index = index + 1;
            }
        },
    }
    assert(fetch_request_views(requests@) =~= spec_fetch_requests(*mode, byte_ranges@));
    requests
}

} // verus!
