//! The crash-recovery state file: its byte layout, how it is written when a
//! download starts, how it is read back to resume, and how the write
//! frontier of a segment is moved forward in place.
//!
//! Layout, all integers little-endian:
//!
//! ```text
//! u32  url_len
//! u8   url[url_len]             UTF-8
//! u8   content_length_flag      1 = a length follows, anything else = none
//! u64  content_length           only after flag 1
//! u8   tasks_count
//! u64  segment_offset[tasks_count]
//! ```

use vstd::bytes::*;
use vstd::prelude::*;
use vstd::slice::*;
use vstd::string::*;
use vstd::utf8::*;

verus! {

/// The width of one segment offset in the file.
pub const U64_SIZE: u64 = 8;

/// What is appended to the name of the data file to name its state file.
pub const STATE_EXTENSION: &'static str = ".bfstate";

/// Why a state file cannot be read back.
#[derive(Debug, Clone, Copy, PartialEq, Eq, Structural)]
pub enum StateError {
    /// The file ends before the field that is being read.
    Truncated,
    /// The bytes of the URL are not UTF-8.
    InvalidUrl,
    /// The write frontiers do not fit the download that the header
    /// describes.
    Inconsistent,
}

/// `String::from_utf8` accepts exactly the byte sequences that are UTF-8,
/// and returns the text that they encode.
#[verifier::external_body]
fn string_from_utf8(bytes: Vec<u8>) -> (r: Option<String>)
    ensures
        r is Some <==> valid_utf8(bytes@),
        r matches Some(text) ==> text@ == decode_utf8(bytes@),
{
    String::from_utf8(bytes).ok()
}

/// The bytes of the content-length field: flag 1 and the length, or flag 0.
pub open spec fn spec_content_length_bytes(content_length: Option<u64>) -> Seq<u8> {
    match content_length {
        Some(length) => seq![1u8] + spec_u64_to_le_bytes(length),
        None => seq![0u8],
    }
}

/// The bytes of the segment offsets, one after the other.
pub open spec fn spec_offsets_bytes(offsets: Seq<u64>) -> Seq<u8>
    decreases offsets.len(),
{
    if offsets.len() == 0 {
        Seq::empty()
    } else {
        spec_offsets_bytes(offsets.drop_last()) + spec_u64_to_le_bytes(offsets.last())
    }
}

/// The bytes of the header: URL, content length, number of tasks.
pub open spec fn spec_header_bytes(
    url: Seq<char>,
    content_length: Option<u64>,
    tasks_count: u8,
) -> Seq<u8> {
    spec_u32_to_le_bytes(encode_utf8(url).len() as u32) + encode_utf8(url)
        + spec_content_length_bytes(content_length) + seq![tasks_count]
}

/// The size of the header, which is where the segment offsets begin.
pub open spec fn spec_header_size(url: Seq<char>, content_length: Option<u64>) -> nat {
    4 + encode_utf8(url).len() + (if content_length is Some {
        9nat
    } else {
        1nat
    }) + 1
}

/// The whole state file as it is first written.
pub open spec fn spec_state_bytes(
    url: Seq<char>,
    content_length: Option<u64>,
    tasks_count: u8,
    offsets: Seq<u64>,
) -> Seq<u8> {
    spec_header_bytes(url, content_length, tasks_count) + spec_offsets_bytes(offsets)
}

/// Reads the URL from the start of a state file: the text, and where the
/// next field begins.
pub open spec fn spec_read_url(image: Seq<u8>) -> Result<(Seq<char>, int), StateError> {
    if image.len() < 4 {
        Err(StateError::Truncated)
    } else {
        let url_len = spec_u32_from_le_bytes(image.subrange(0, 4)) as int;
        if image.len() < 4 + url_len {
            Err(StateError::Truncated)
        } else if !valid_utf8(image.subrange(4, 4 + url_len)) {
            Err(StateError::InvalidUrl)
        } else {
            Ok((decode_utf8(image.subrange(4, 4 + url_len)), 4 + url_len))
        }
    }
}

/// Reads the content-length field at `pos`: the length, if the flag says
/// that there is one, and where the next field begins.
pub open spec fn spec_read_content_length(image: Seq<u8>, pos: int) -> Result<
    (Option<u64>, int),
    StateError,
> {
    if image.len() < pos + 1 {
        Err(StateError::Truncated)
    } else if image[pos] == 1 {
        if image.len() < pos + 9 {
            Err(StateError::Truncated)
        } else {
            Ok((Some(spec_u64_from_le_bytes(image.subrange(pos + 1, pos + 9))), pos + 9))
        }
    } else {
        Ok((None, pos + 1))
    }
}

/// Reads the number of tasks at `pos`, and where the offsets begin.
pub open spec fn spec_read_tasks_count(image: Seq<u8>, pos: int) -> Result<(u8, int), StateError> {
    if image.len() < pos + 1 {
        Err(StateError::Truncated)
    } else {
        Ok((image[pos], pos + 1))
    }
}

/// Reads `count` segment offsets from `pos` on.
pub open spec fn spec_read_offsets(image: Seq<u8>, pos: int, count: int) -> Result<
    Seq<u64>,
    StateError,
> {
    if image.len() < pos + 8 * count {
        Err(StateError::Truncated)
    } else {
        Ok(
            Seq::new(
                count as nat,
                |i: int| spec_u64_from_le_bytes(image.subrange(pos + 8 * i, pos + 8 * i + 8)),
            ),
        )
    }
}

/// What a state file holds.
pub struct StateImage {
    pub url: Seq<char>,
    pub content_length: Option<u64>,
    pub tasks_count: u8,
    pub offsets: Seq<u64>,
    /// Where the segment offsets begin in the file.
    pub progress_offset: int,
}

/// Reads a whole state file, field by field; the first field that cannot be
/// read decides the error. Bytes after the last offset are ignored.
pub open spec fn spec_decode(image: Seq<u8>) -> Result<StateImage, StateError> {
    match spec_read_url(image) {
        Err(e) => Err(e),
        Ok((url, after_url)) => match spec_read_content_length(image, after_url) {
            Err(e) => Err(e),
            Ok((content_length, after_length)) => match spec_read_tasks_count(
                image,
                after_length,
            ) {
                Err(e) => Err(e),
                Ok((tasks_count, after_count)) => match spec_read_offsets(
                    image,
                    after_count,
                    tasks_count as int,
                ) {
                    Err(e) => Err(e),
                    Ok(offsets) => Ok(
                        StateImage {
                            url,
                            content_length,
                            tasks_count,
                            offsets,
                            progress_offset: after_count,
                        },
                    ),
                },
            },
        },
    }
}

/// The offsets take eight bytes each.
pub proof fn lemma_offsets_bytes_len(offsets: Seq<u64>)
    ensures
        spec_offsets_bytes(offsets).len() == 8 * offsets.len(),
    decreases offsets.len(),
{
    lemma_auto_spec_u64_to_from_le_bytes();
    if offsets.len() > 0 {
        lemma_offsets_bytes_len(offsets.drop_last());
    }
}

/// Offset `index` stands at byte `8 * index` of the offsets' bytes.
pub proof fn lemma_offsets_bytes_at(offsets: Seq<u64>, index: int)
    requires
        0 <= index < offsets.len(),
    ensures
        8 * index + 8 <= spec_offsets_bytes(offsets).len(),
        spec_offsets_bytes(offsets).subrange(8 * index, 8 * index + 8) == spec_u64_to_le_bytes(
            offsets[index],
        ),
    decreases offsets.len(),
{
    lemma_auto_spec_u64_to_from_le_bytes();
    lemma_offsets_bytes_len(offsets);
    lemma_offsets_bytes_len(offsets.drop_last());
    let earlier = spec_offsets_bytes(offsets.drop_last());
    let last = spec_u64_to_le_bytes(offsets.last());
    if index == offsets.len() - 1 {
        assert((earlier + last).subrange(8 * index, 8 * index + 8) =~= last);
    } else {
        lemma_offsets_bytes_at(offsets.drop_last(), index);
        assert((earlier + last).subrange(8 * index, 8 * index + 8) =~= earlier.subrange(
            8 * index,
            8 * index + 8,
        ));
    }
}

/// Reading back a state file as it was first written recovers the URL, the
/// content length, the number of tasks and the segment offsets that it was
/// written from, provided that it holds one offset for each task and that
/// the length of the URL fits the length field.
pub proof fn law_state_round_trip(
    url: Seq<char>,
    content_length: Option<u64>,
    tasks_count: u8,
    offsets: Seq<u64>,
)
    requires
        encode_utf8(url).len() <= u32::MAX,
        offsets.len() == tasks_count,
    ensures
        spec_decode(spec_state_bytes(url, content_length, tasks_count, offsets)) == Ok::<
            StateImage,
            StateError,
        >(
            StateImage {
                url,
                content_length,
                tasks_count,
                offsets,
                progress_offset: spec_header_size(url, content_length) as int,
            },
        ),
{
    lemma_auto_spec_u32_to_from_le_bytes();
    lemma_auto_spec_u64_to_from_le_bytes();
    encode_utf8_valid_utf8(url);
    encode_utf8_decode_utf8(url);
    lemma_offsets_bytes_len(offsets);
    let url_bytes = encode_utf8(url);
    let url_len = url_bytes.len() as int;
    let length_field = spec_u32_to_le_bytes(url_len as u32);
    let header = spec_header_bytes(url, content_length, tasks_count);
    let tail = spec_offsets_bytes(offsets);
    let image = spec_state_bytes(url, content_length, tasks_count, offsets);
    assert(image.subrange(0, 4) =~= length_field);
    assert(image.subrange(4, 4 + url_len) =~= url_bytes);
    let after_url = 4 + url_len;
    let after_length = if content_length is Some {
        after_url + 9
    } else {
        after_url + 1
    };
    match content_length {
        Some(length) => {
            assert(image[after_url] == 1);
            assert(image.subrange(after_url + 1, after_url + 9) =~= spec_u64_to_le_bytes(length));
        },
        None => {
            assert(image[after_url] == 0);
        },
    }
    assert(spec_read_content_length(image, after_url) == Ok::<(Option<u64>, int), StateError>(
        (content_length, after_length),
    ));
    assert(image[after_length] == tasks_count);
    let after_count = after_length + 1;
    assert(header.len() == after_count);
    let read = spec_read_offsets(image, after_count, tasks_count as int);
    assert(read is Ok);
    assert(read->Ok_0 =~= offsets) by {
        assert forall|i: int| 0 <= i < offsets.len() implies (#[trigger] read->Ok_0[i])
            == offsets[i] by {
            lemma_offsets_bytes_at(offsets, i);
            assert(image.subrange(after_count + 8 * i, after_count + 8 * i + 8) =~= tail.subrange(
                8 * i,
                8 * i + 8,
            ));
        }
    }
}

/// Reads the URL from the start of a state file.
fn read_url(image: &[u8]) -> (r: Result<(String, usize), StateError>)
    ensures
        match (r, spec_read_url(image@)) {
            (Ok((url, pos)), Ok((spec_url, spec_pos))) => url@ == spec_url && pos == spec_pos,
            (Err(e), Err(spec_e)) => e == spec_e,
            _ => false,
        },
{
    if image.len() < 4 {
        return Err(StateError::Truncated);
    }
    let url_len: usize = u32_from_le_bytes(slice_subrange(image, 0, 4)) as usize;
    if image.len() - 4 < url_len {
        return Err(StateError::Truncated);
    }
    let url_bytes: Vec<u8> = slice_to_vec(slice_subrange(image, 4, 4 + url_len));
    match string_from_utf8(url_bytes) {
        Some(url) => Ok((url, 4 + url_len)),
        None => Err(StateError::InvalidUrl),
    }
}

/// Reads the content-length field at `pos`.
fn read_option_u64(image: &[u8], pos: usize) -> (r: Result<(Option<u64>, usize), StateError>)
    requires
        pos <= image@.len(),
    ensures
        match (r, spec_read_content_length(image@, pos as int)) {
            (Ok((value, next)), Ok((spec_value, spec_next))) => value == spec_value && next
                == spec_next,
            (Err(e), Err(spec_e)) => e == spec_e,
            _ => false,
        },
{
    if image.len() - pos < 1 {
        return Err(StateError::Truncated);
    }
    if image[pos] == 1 {
        if image.len() - pos < 9 {
            return Err(StateError::Truncated);
        }
        let value: u64 = u64_from_le_bytes(slice_subrange(image, pos + 1, pos + 9));
        Ok((Some(value), pos + 9))
    } else {
        Ok((None, pos + 1))
    }
}

/// Reads the number of tasks at `pos`.
fn read_tasks_count(image: &[u8], pos: usize) -> (r: Result<(u8, usize), StateError>)
    requires
        pos <= image@.len(),
    ensures
        match (r, spec_read_tasks_count(image@, pos as int)) {
            (Ok((value, next)), Ok((spec_value, spec_next))) => value == spec_value && next
                == spec_next,
            (Err(e), Err(spec_e)) => e == spec_e,
            _ => false,
        },
{
    if image.len() - pos < 1 {
        return Err(StateError::Truncated);
    }
    Ok((image[pos], pos + 1))
}

/// Reads `count` segment offsets from `pos` on.
fn read_offsets(image: &[u8], pos: usize, count: u8) -> (r: Result<Vec<u64>, StateError>)
    requires
        pos <= image@.len(),
    ensures
        match (r, spec_read_offsets(image@, pos as int, count as int)) {
            (Ok(offsets), Ok(spec_offsets)) => offsets@ == spec_offsets,
            (Err(e), Err(spec_e)) => e == spec_e,
            _ => false,
        },
{
    if image.len() - pos < 8 * (count as usize) {
        return Err(StateError::Truncated);
    }
    let mut offsets: Vec<u64> = Vec::with_capacity(count as usize);
    let mut index: usize = 0;
    while index < count as usize
        invariant
            index <= count,
            pos + 8 * count <= image@.len() <= usize::MAX,
            offsets@.len() == index,
            forall|i: int|
                0 <= i < index ==> offsets@[i] == spec_u64_from_le_bytes(
                    image@.subrange(pos + 8 * i, pos + 8 * i + 8),
                ),
        decreases count - index,
    {
        let at: usize = pos + 8 * index;
        offsets.push(u64_from_le_bytes(slice_subrange(image, at, at + 8)));
        index = index + 1;
    }
    assert(offsets@ =~= spec_read_offsets(image@, pos as int, count as int)->Ok_0);
    Ok(offsets)
}

/// One positional write to the state file.
#[derive(Debug)]
pub struct StateWrite {
    /// Where in the file the bytes go.
    pub position: u64,
    /// The bytes to write there.
    pub bytes: Vec<u8>,
}

/// The write frontiers of the segments of a resumable download, as the
/// state file holds them.
#[derive(Debug)]
pub struct ProgressState {
    progress_offset: u64,
    segment_offsets: Vec<u64>,
}

impl ProgressState {
    /// The write frontier of each segment.
    pub closed spec fn spec_offsets(&self) -> Seq<u64> {
        self.segment_offsets@
    }

    /// Where the segment offsets begin in the file.
    pub closed spec fn spec_progress_offset(&self) -> u64 {
        self.progress_offset
    }

    /// The position of every offset in the file is one that a `u64` holds.
    pub closed spec fn wf(&self) -> bool {
        self.progress_offset + 8 * self.segment_offsets@.len() <= u64::MAX
    }

    /// The state of a download that starts: the write frontiers are the
    /// starts of the segments, one for each task. Returns the state and the
    /// bytes of the state file to write.
    pub fn new(
        url: &str,
        content_length: Option<u64>,
        tasks_count: u8,
        download_offsets: Vec<u64>,
    ) -> (r: (Self, Vec<u8>))
        requires
            encode_utf8(url@).len() <= u32::MAX,
            download_offsets@.len() == tasks_count,
        ensures
            r.0.wf(),
            r.0.spec_offsets() == download_offsets@,
            r.0.spec_progress_offset() == spec_header_size(url@, content_length),
            r.1@ == spec_state_bytes(url@, content_length, tasks_count, download_offsets@),
    {
        let url_bytes = url.as_bytes();
        let mut image: Vec<u8> = u32_to_le_bytes(url_bytes.len() as u32);
        image.extend_from_slice(url_bytes);
        let mut progress_offset: u64 = 4 + url_bytes.len() as u64;
        match content_length {
            Some(length) => {
                image.push(1);
                let mut field = u64_to_le_bytes(length);
                image.append(&mut field);
                progress_offset = progress_offset + 9;
            },
            None => {
                image.push(0);
                progress_offset = progress_offset + 1;
            },
        }
        image.push(tasks_count);
        progress_offset = progress_offset + 1;
        assert(image@ =~= spec_header_bytes(url@, content_length, tasks_count));
        let mut index: usize = 0;
        while index < download_offsets.len()
            invariant
                index <= download_offsets@.len(),
                image@ == spec_header_bytes(url@, content_length, tasks_count) + spec_offsets_bytes(
                    download_offsets@.take(index as int),
                ),
            decreases download_offsets@.len() - index,
        {
            let mut field = u64_to_le_bytes(download_offsets[index]);
            image.append(&mut field);
            assert(download_offsets@.take(index + 1).drop_last() =~= download_offsets@.take(
                index as int,
            ));
            assert(image@ =~= spec_header_bytes(url@, content_length, tasks_count)
                + spec_offsets_bytes(download_offsets@.take(index + 1)));
            index = index + 1;
        }
        assert(download_offsets@.take(index as int) =~= download_offsets@);
        (Self { progress_offset, segment_offsets: download_offsets }, image)
    }

    /// Reads back the bytes of a state file to resume a download. On
    /// success the URL, the content length and the number of tasks are
    /// handed out through the three references, and the state holds the
    /// write frontiers. The fields are read in the order of the file; a
    /// field that was read before the failing one is handed out all the
    /// same, the others are left as they were.
    pub fn load(
        image: &[u8],
        url: &mut String,
        content_length: &mut Option<u64>,
        tasks_count: &mut u8,
    ) -> (r: Result<Self, StateError>)
        ensures
            match spec_decode(image@) {
                Ok(decoded) => {
                    &&& r matches Ok(state)
                    &&& state.wf()
                    &&& state.spec_offsets() == decoded.offsets
                    &&& state.spec_progress_offset() == decoded.progress_offset
                    &&& final(url)@ == decoded.url
                    &&& *final(content_length) == decoded.content_length
                    &&& *final(tasks_count) == decoded.tasks_count
                },
                Err(e) => r matches Err(found) && found == e,
            },
            final(url)@ == match spec_read_url(image@) {
                Ok((text, _)) => text,
                Err(_) => old(url)@,
            },
            *final(content_length) == match spec_read_url(image@) {
                Ok((_, after_url)) => match spec_read_content_length(image@, after_url) {
                    Ok((length, _)) => length,
                    Err(_) => *old(content_length),
                },
                Err(_) => *old(content_length),
            },
            *final(tasks_count) == match spec_read_url(image@) {
                Ok((_, after_url)) => match spec_read_content_length(image@, after_url) {
                    Ok((_, after_length)) => match spec_read_tasks_count(image@, after_length) {
                        Ok((count, _)) => count,
                        Err(_) => *old(tasks_count),
                    },
                    Err(_) => *old(tasks_count),
                },
                Err(_) => *old(tasks_count),
            },
    {
        let (text, after_url) = match read_url(image) {
            Ok(found) => found,
            Err(e) => {
                return Err(e);
            },
        };
        *url = text;
        let (length, after_length) = match read_option_u64(image, after_url) {
            Ok(found) => found,
            Err(e) => {
                return Err(e);
            },
        };
        *content_length = length;
        let (count, after_count) = match read_tasks_count(image, after_length) {
            Ok(found) => found,
            Err(e) => {
                return Err(e);
            },
        };
        *tasks_count = count;
        let segment_offsets = match read_offsets(image, after_count, count) {
            Ok(found) => found,
            Err(e) => {
                return Err(e);
            },
        };
        Ok(Self { progress_offset: after_count as u64, segment_offsets })
    }

    /// The write frontier of segment `index`.
    pub fn get_progress(&self, index: usize) -> (r: u64)
        requires
            index < self.spec_offsets().len(),
        ensures
            r == self.spec_offsets()[index as int],
    {
        self.segment_offsets[index]
    }

    /// The number of segments.
    pub fn segments(&self) -> (r: usize)
        ensures
            r == self.spec_offsets().len(),
    {
        self.segment_offsets.len()
    }

    /// Where the segment offsets begin in the file.
    pub fn progress_offset(&self) -> (r: u64)
        ensures
            r == self.spec_progress_offset(),
    {
        self.progress_offset
    }
}

/// Something that records how far a segment has been written.
pub trait ProgressUpdater {
    /// Whether `written_bytes` more bytes can be recorded for segment
    /// `index`.
    spec fn accepts(&self, index: usize, written_bytes: u64) -> bool;

    /// Tests whether `update_progress` may be called with these arguments.
    fn can_update(&self, index: usize, written_bytes: u64) -> (r: bool)
        ensures
            r == self.accepts(index, written_bytes),
    ;

    /// Records that `written_bytes` more bytes of segment `index` are in the
    /// data file, and returns the write that brings the state file up to
    /// date, if there is a state file.
    fn update_progress(&mut self, index: usize, written_bytes: u64) -> (r: Option<StateWrite>)
        requires
            old(self).accepts(index, written_bytes),
    ;
}

impl ProgressUpdater for ProgressState {
    open spec fn accepts(&self, index: usize, written_bytes: u64) -> bool {
        &&& self.wf()
        &&& index < self.spec_offsets().len()
        &&& self.spec_offsets()[index as int] + written_bytes <= u64::MAX
    }

    fn can_update(&self, index: usize, written_bytes: u64) -> (r: bool) {
        index < self.segment_offsets.len() && self.segment_offsets[index] <= u64::MAX
            - written_bytes && self.progress_offset as u128 + 8 * (
        self.segment_offsets.len() as u128) <= u64::MAX as u128
    }

    /// Moves the write frontier of segment `index` forward by
    /// `written_bytes` and returns the eight bytes that replace its offset
    /// in the state file, with their position. Recording zero bytes leaves
    /// every frontier as it was.
    fn update_progress(&mut self, index: usize, written_bytes: u64) -> (r: Option<StateWrite>)
        ensures
            final(self).wf(),
            final(self).spec_progress_offset() == old(self).spec_progress_offset(),
            final(self).spec_offsets() == old(self).spec_offsets().update(
                index as int,
                (old(self).spec_offsets()[index as int] + written_bytes) as u64,
            ),
            written_bytes == 0 ==> final(self).spec_offsets() == old(self).spec_offsets(),
            r matches Some(write) && write.position == old(self).spec_progress_offset() + index
                * U64_SIZE && write.bytes@ == spec_u64_to_le_bytes(
                final(self).spec_offsets()[index as int],
            ),
    {
        let position: u64 = self.progress_offset + (index as u64) * U64_SIZE;
        let moved: u64 = self.segment_offsets[index] + written_bytes;
        self.segment_offsets.set(index, moved);
        assert(written_bytes == 0 ==> final(self).spec_offsets() =~= old(self).spec_offsets());
        Some(StateWrite { position, bytes: u64_to_le_bytes(moved) })
    }
}

/// The recorder of a download that cannot be resumed: it keeps no state.
#[derive(Debug)]
pub struct NoOpProgressState;

impl ProgressUpdater for NoOpProgressState {
    open spec fn accepts(&self, index: usize, written_bytes: u64) -> bool {
        true
    }

    fn can_update(&self, index: usize, written_bytes: u64) -> (r: bool) {
        true
    }

    /// Records nothing and asks for no write.
    fn update_progress(&mut self, index: usize, written_bytes: u64) -> (r: Option<StateWrite>)
        ensures
            r is None,
    {
        None
    }
}

/// Applying the write that `update_progress` returns to a state file leaves
/// a file that reads back with the moved frontier: where `image` reads back
/// as `decoded`, replacing the eight bytes at the position of offset `index`
/// by the bytes of `value` gives a file that reads back the same but for
/// that offset, which is `value`.
pub proof fn law_update_in_place(image: Seq<u8>, decoded: StateImage, index: int, value: u64)
    requires
        spec_decode(image) == Ok::<StateImage, StateError>(decoded),
        0 <= index < decoded.offsets.len(),
    ensures
        ({
            let position = decoded.progress_offset + 8 * index;
            let patched = image.subrange(0, position) + spec_u64_to_le_bytes(value)
                + image.subrange(position + 8, image.len() as int);
            spec_decode(patched) == Ok::<StateImage, StateError>(
                StateImage {
                    url: decoded.url,
                    content_length: decoded.content_length,
                    tasks_count: decoded.tasks_count,
                    offsets: decoded.offsets.update(index, value),
                    progress_offset: decoded.progress_offset,
                },
            )
        }),
{
    lemma_auto_spec_u64_to_from_le_bytes();
    let position = decoded.progress_offset + 8 * index;
    let field = spec_u64_to_le_bytes(value);
    let patched = image.subrange(0, position) + field + image.subrange(
        position + 8,
        image.len() as int,
    );
    let url_len = spec_u32_from_le_bytes(image.subrange(0, 4)) as int;
    let after_url = 4 + url_len;
    assert(patched.len() == image.len());
    assert(patched.subrange(0, 4) =~= image.subrange(0, 4));
    assert(patched.subrange(4, 4 + url_len) =~= image.subrange(4, 4 + url_len));
    assert(patched[after_url] == image[after_url]);
    if image[after_url] == 1 {
        assert(patched.subrange(after_url + 1, after_url + 9) =~= image.subrange(
            after_url + 1,
            after_url + 9,
        ));
    }
    let after_count = decoded.progress_offset;
    assert(patched[after_count - 1] == image[after_count - 1]);
    let read = spec_read_offsets(patched, after_count, decoded.tasks_count as int);
    assert(read is Ok);
    assert(read->Ok_0 =~= decoded.offsets.update(index, value)) by {
        assert forall|i: int| 0 <= i < decoded.offsets.len() implies (#[trigger] read->Ok_0[i])
            == decoded.offsets.update(index, value)[i] by {
            if i == index {
                assert(patched.subrange(after_count + 8 * i, after_count + 8 * i + 8) =~= field);
            } else {
                assert(patched.subrange(after_count + 8 * i, after_count + 8 * i + 8)
                    =~= image.subrange(after_count + 8 * i, after_count + 8 * i + 8));
            }
        }
    }
}

} // verus!
