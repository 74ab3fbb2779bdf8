//! Mode selection and segmentation arithmetic: which fetch strategy a probe
//! result leads to, and how a resource of known length is cut into the byte
//! ranges that the fetch tasks request.

use vstd::prelude::*;
use crate::info::HttpDownloadInfo;

verus! {

/// The fetch strategy chosen once the resource has been probed.
#[derive(Debug, Clone, Copy, PartialEq, Eq, Structural)]
pub enum HttpDownloadMode {
    /// The server does not serve ranges: one fetch, no ranges, no state file.
    NonResumable,
    /// Ranges are served, but the length is unknown or one task was asked
    /// for: a single open-ended range.
    ResumableStream,
    /// Ranges are served and the length is known: one bounded range per task.
    ResumableMultithread,
}

/// Whether a download in this mode keeps a state file to resume from: every
/// mode but the one that cannot be resumed does.
pub fn keeps_state(mode: &HttpDownloadMode) -> (r: bool)
    ensures
        r == (*mode != HttpDownloadMode::NonResumable),
{
    match mode {
        HttpDownloadMode::NonResumable => false,
        HttpDownloadMode::ResumableStream => true,
        HttpDownloadMode::ResumableMultithread => true,
    }
}

/// The number of fetch tasks that a download runs, which is the number of
/// tasks that meet when the speed changes: as many as were asked for where
/// every task has a range of its own, and one in every other mode.
pub open spec fn spec_fetch_tasks(mode: HttpDownloadMode, tasks_count: u8) -> usize {
    if mode == HttpDownloadMode::ResumableMultithread {
        tasks_count as usize
    } else {
        1
    }
}

/// Counts the fetch tasks of a download. A download with one fetch task
/// has a lone party at the meeting point, which therefore never waits for
/// another; its state file, if it keeps one, holds one write frontier.
pub fn fetch_tasks(mode: &HttpDownloadMode, tasks_count: u8) -> (r: usize)
    ensures
        r == spec_fetch_tasks(*mode, tasks_count),
{
    match mode {
        HttpDownloadMode::ResumableMultithread => tasks_count as usize,
        _ => 1,
    }
}

/// The write frontiers that a download starts with: the first byte of each
/// of its ranges.
pub fn range_starts(byte_ranges: &Vec<(u64, u64)>) -> (r: Vec<u64>)
    ensures
        r@.len() == byte_ranges@.len(),
        forall|i: int| 0 <= i < r@.len() ==> r@[i] == (#[trigger] byte_ranges@[i]).0,
{
    let mut starts: Vec<u64> = Vec::new();
    let mut index: usize = 0;
    while index < byte_ranges.len()
        invariant
            index <= byte_ranges@.len(),
            starts@.len() == index,
            forall|i: int| 0 <= i < index ==> starts@[i] == (#[trigger] byte_ranges@[i]).0,
        decreases byte_ranges@.len() - index,
    {
        starts.push(byte_ranges[index].0);
        index = index + 1;
    }
    starts
}

/// The mode that `(tasks_count, content_length, is_resumable)` leads to.
pub open spec fn spec_determine_mode(
    tasks_count: u8,
    content_length: Option<u64>,
    is_resumable: bool,
) -> HttpDownloadMode {
    if !is_resumable {
        HttpDownloadMode::NonResumable
    } else if content_length is None || tasks_count == 1 {
        HttpDownloadMode::ResumableStream
    } else {
        HttpDownloadMode::ResumableMultithread
    }
}

/// Chooses the download mode from the requested number of tasks and what the
/// probe found out about the resource.
pub fn determine_mode(tasks_count: u8, info: &HttpDownloadInfo) -> (mode: HttpDownloadMode)
    ensures
        mode == spec_determine_mode(tasks_count, info.spec_content_length(), info.spec_is_resumable()),
{
    if !info.is_resumable() {
        HttpDownloadMode::NonResumable
    } else if info.content_length().is_none() || tasks_count == 1 {
        HttpDownloadMode::ResumableStream
    } else {
        HttpDownloadMode::ResumableMultithread
    }
}

/// The size of the larger parts and the number of parts that have it, for
/// `content_length` bytes cut into `parts` pieces.
pub open spec fn spec_split_content(content_length: nat, parts: nat) -> (nat, nat)
    recommends
        parts > 0,
{
    if content_length % parts > 0 {
        (content_length / parts + 1, content_length % parts)
    } else {
        (content_length / parts, parts)
    }
}

/// Cuts `content_length` bytes into `thread_number` parts: returns the size of
/// the larger parts and how many parts have that size; the others are one byte
/// shorter.
pub fn split_content(content_length: u64, thread_number: u64) -> (r: (u64, u64))
    requires
        thread_number > 0,
    ensures
        (r.0 as nat, r.1 as nat) == spec_split_content(content_length as nat, thread_number as nat),
{
    let remainder: u64 = content_length % thread_number;
    let part_size: u64 = content_length / thread_number;
    if remainder > 0 {
        assert(part_size < u64::MAX) by (nonlinear_arith)
            requires
                part_size == content_length / thread_number,
                content_length % thread_number > 0,
                thread_number > 0,
        ;
        (part_size + 1, remainder)
    } else {
        (part_size, thread_number)
    }
}

/// The split that a mode calls for: none unless every task gets a bounded
/// range of its own.
pub open spec fn spec_try_split_content(
    mode: HttpDownloadMode,
    content_length: Option<u64>,
    tasks_count: u8,
) -> Option<(nat, nat)> {
    if mode == HttpDownloadMode::ResumableMultithread {
        Some(spec_split_content(content_length.unwrap() as nat, tasks_count as nat))
    } else {
        None
    }
}

/// Splits the content for a multi-task download; the other modes have no
/// split.
pub fn try_split_content(
    mode: &HttpDownloadMode,
    content_length: &Option<u64>,
    tasks_count: u8,
) -> (r: Option<(u64, u64)>)
    requires
        *mode == HttpDownloadMode::ResumableMultithread ==> content_length is Some && tasks_count
            > 0,
    ensures
        r is Some <==> *mode == HttpDownloadMode::ResumableMultithread,
        r matches Some(s) ==> spec_try_split_content(*mode, *content_length, tasks_count) == Some(
            (s.0 as nat, s.1 as nat),
        ),
{
    if *mode == HttpDownloadMode::NonResumable || *mode == HttpDownloadMode::ResumableStream {
        return None;
    }
    match content_length {
        Some(length) => Some(split_content(*length, tasks_count as u64)),
        None => None,
    }
}

/// By how many bytes part `index` is shifted down because shorter parts
/// precede it.
pub open spec fn spec_shift(parts_before_decrease: nat, index: nat) -> nat {
    if index > parts_before_decrease {
        (index - parts_before_decrease) as nat
    } else {
        0
    }
}

/// First byte of part `index`.
pub open spec fn spec_part_start(part_size: nat, parts_before_decrease: nat, index: nat) -> int {
    index * part_size - spec_shift(parts_before_decrease, index)
}

/// Last byte (inclusive) of part `index`.
pub open spec fn spec_part_end(part_size: nat, parts_before_decrease: nat, index: nat) -> int {
    (index + 1) * part_size - 1 - (if index >= parts_before_decrease {
        1int
    } else {
        0int
    }) - spec_shift(parts_before_decrease, index)
}

/// Number of bytes in part `index`.
pub open spec fn spec_part_len(part_size: nat, parts_before_decrease: nat, index: nat) -> int {
    spec_part_end(part_size, parts_before_decrease, index) - spec_part_start(
        part_size,
        parts_before_decrease,
        index,
    ) + 1
}

/// Whether both ends of part `index` are byte offsets that a `u64` holds.
pub open spec fn part_range_fits(part_size: nat, parts_before_decrease: nat, index: nat) -> bool {
    &&& 0 <= spec_part_start(part_size, parts_before_decrease, index) <= u64::MAX
    &&& 0 <= spec_part_end(part_size, parts_before_decrease, index) <= u64::MAX
}

/// The inclusive byte range `(start, end)` of part `index` under the split
/// `(part_size, parts_before_decrease)`.
pub fn calculate_part_range(split: (u64, u64), index: u64) -> (r: (u64, u64))
    requires
        part_range_fits(split.0 as nat, split.1 as nat, index as nat),
    ensures
        r.0 == spec_part_start(split.0 as nat, split.1 as nat, index as nat),
        r.1 == spec_part_end(split.0 as nat, split.1 as nat, index as nat),
{
    let part_size: u128 = split.0 as u128;
    let parts_before_decrease: u128 = split.1 as u128;
    let wide_index: u128 = index as u128;
    assert(wide_index * part_size <= 0xffff_ffff_ffff_ffff * 0xffff_ffff_ffff_ffff)
        by (nonlinear_arith)
        requires
            wide_index <= 0xffff_ffff_ffff_ffff,
            part_size <= 0xffff_ffff_ffff_ffff,
    ;
    assert((wide_index + 1) * part_size == wide_index * part_size + part_size)
        by (nonlinear_arith);
    let below: u128 = wide_index * part_size;
    let above: u128 = below + part_size;
    let mut start: u128 = below;
    let mut end: u128 = above;
    if wide_index > parts_before_decrease {
        start = start - (wide_index - parts_before_decrease);
    }
    if wide_index >= parts_before_decrease {
        end = end - (wide_index - parts_before_decrease + 1);
    }
    end = end - 1;
    (start as u64, end as u64)
}


/// The bytes of the first `count` parts together.
pub open spec fn spec_total_len(part_size: nat, parts_before_decrease: nat, count: nat) -> int
    decreases count,
{
    if count == 0 {
        0
    } else {
        spec_total_len(part_size, parts_before_decrease, (count - 1) as nat) + spec_part_len(
            part_size,
            parts_before_decrease,
            (count - 1) as nat,
        )
    }
}

/// What a split is made of: at least one and at most `tasks` parts have the
/// larger size, that size is positive for a non-empty resource, and the sizes
/// add up to the content length.
pub proof fn lemma_split_shape(content_length: nat, tasks: nat)
    requires
        tasks >= 1,
    ensures
        1 <= spec_split_content(content_length, tasks).1 <= tasks,
        tasks * spec_split_content(content_length, tasks).0 - (tasks - spec_split_content(
            content_length,
            tasks,
        ).1) == content_length,
        content_length >= 1 ==> spec_split_content(content_length, tasks).0 >= 1,
{
    let q = content_length / tasks;
    let r = content_length % tasks;
    vstd::arithmetic::div_mod::lemma_fundamental_div_mod(content_length as int, tasks as int);
    assert(0 <= r < tasks) by (nonlinear_arith)
        requires
            r == content_length % tasks,
            tasks >= 1,
    ;
    assert(0 <= q) by (nonlinear_arith)
        requires
            q == content_length / tasks,
            tasks >= 1,
    ;
    assert(tasks * (q + 1) == tasks * q + tasks) by (nonlinear_arith);
    if r == 0 && content_length >= 1 {
        assert(q >= 1) by (nonlinear_arith)
            requires
                content_length == tasks * q,
                content_length >= 1,
                tasks >= 1,
                q >= 0,
        ;
    }
}

/// Each part begins where the one before it ended, and is `part_size` bytes
/// long before the decrease and one byte shorter from there on.
pub proof fn lemma_part_step(part_size: nat, parts_before_decrease: nat, index: nat)
    ensures
        spec_part_start(part_size, parts_before_decrease, index + 1) == spec_part_end(
            part_size,
            parts_before_decrease,
            index,
        ) + 1,
        spec_part_len(part_size, parts_before_decrease, index) == if index
            < parts_before_decrease {
            part_size as int
        } else {
            part_size - 1
        },
{
    assert((index + 1) * part_size == index * part_size + part_size) by (nonlinear_arith);
}

/// The first `count` parts together end where part `count` would begin.
pub proof fn lemma_total_len_is_next_start(part_size: nat, parts_before_decrease: nat, count: nat)
    ensures
        spec_total_len(part_size, parts_before_decrease, count) == spec_part_start(
            part_size,
            parts_before_decrease,
            count,
        ),
    decreases count,
{
    if count == 0 {
        assert(0 * part_size == 0) by (nonlinear_arith);
    } else {
        lemma_total_len_is_next_start(part_size, parts_before_decrease, (count - 1) as nat);
        lemma_part_step(part_size, parts_before_decrease, (count - 1) as nat);
    }
}

/// With a positive part size, a later part never begins before an earlier one.
pub proof fn lemma_part_start_monotonic(
    part_size: nat,
    parts_before_decrease: nat,
    low: nat,
    high: nat,
)
    requires
        part_size >= 1,
        low <= high,
    ensures
        spec_part_start(part_size, parts_before_decrease, low) <= spec_part_start(
            part_size,
            parts_before_decrease,
            high,
        ),
    decreases high - low,
{
    if low < high {
        lemma_part_start_monotonic(part_size, parts_before_decrease, low, (high - 1) as nat);
        lemma_part_step(part_size, parts_before_decrease, (high - 1) as nat);
    }
}

/// The ranges of a split are contiguous, do not overlap, and together cover
/// the bytes `0 ..= content_length - 1`: the first range begins at byte 0,
/// each further range begins right after the one before it, the last range
/// ends at the last byte, and no range reaches into a later one.
pub proof fn law_ranges_partition_content(content_length: nat, tasks: nat)
    requires
        content_length >= 1,
        tasks >= 1,
    ensures
        ({
            let (part_size, decrease) = spec_split_content(content_length, tasks);
            &&& spec_part_start(part_size, decrease, 0) == 0
            &&& forall|i: nat|
                i + 1 < tasks ==> #[trigger] spec_part_start(part_size, decrease, i + 1)
                    == spec_part_end(part_size, decrease, i) + 1
            &&& spec_part_end(part_size, decrease, (tasks - 1) as nat) == content_length - 1
            &&& forall|i: nat|
                i < tasks ==> spec_part_start(part_size, decrease, i) <= #[trigger] spec_part_end(
                    part_size,
                    decrease,
                    i,
                ) + 1
            &&& forall|i: nat, j: nat|
                i < j < tasks ==> #[trigger] spec_part_end(part_size, decrease, i)
                    < #[trigger] spec_part_start(part_size, decrease, j)
        }),
{
    let (part_size, decrease) = spec_split_content(content_length, tasks);
    lemma_split_shape(content_length, tasks);
    assert(0 * part_size == 0) by (nonlinear_arith);
    assert forall|i: nat| i + 1 < tasks implies #[trigger] spec_part_start(
        part_size,
        decrease,
        i + 1,
    ) == spec_part_end(part_size, decrease, i) + 1 by {
        lemma_part_step(part_size, decrease, i);
    }
    assert(spec_part_end(part_size, decrease, (tasks - 1) as nat) == content_length - 1) by {
        assert(((tasks - 1) as nat + 1) * part_size == tasks * part_size) by (nonlinear_arith)
            requires
                tasks >= 1,
        ;
    }
    assert forall|i: nat| i < tasks implies spec_part_start(part_size, decrease, i)
        <= #[trigger] spec_part_end(part_size, decrease, i) + 1 by {
        lemma_part_step(part_size, decrease, i);
    }
    assert forall|i: nat, j: nat| i < j < tasks implies #[trigger] spec_part_end(
        part_size,
        decrease,
        i,
    ) < #[trigger] spec_part_start(part_size, decrease, j) by {
        lemma_part_step(part_size, decrease, i);
        lemma_part_start_monotonic(part_size, decrease, i + 1, j);
    }
}

/// The sizes of the parts of a split add up to the content length.
pub proof fn law_part_sizes_sum_to_content_length(content_length: nat, tasks: nat)
    requires
        content_length >= 1,
        tasks >= 1,
    ensures
        spec_total_len(
            spec_split_content(content_length, tasks).0,
            spec_split_content(content_length, tasks).1,
            tasks,
        ) == content_length,
{
    let (part_size, decrease) = spec_split_content(content_length, tasks);
    lemma_split_shape(content_length, tasks);
    lemma_total_len_is_next_start(part_size, decrease, tasks);
}

/// The indices, below `tasks`, of the parts that are exactly `part_size` bytes
/// long.
pub open spec fn full_size_parts(part_size: nat, parts_before_decrease: nat, tasks: nat) -> Set<
    int,
> {
    Set::new(
        |i: int|
            0 <= i < tasks && spec_part_len(part_size, parts_before_decrease, i as nat)
                == part_size,
    )
}

/// Exactly `parts_before_decrease` parts of a split have the size
/// `part_size`, namely the first ones; every other part is one byte shorter.
/// Where the content length is a multiple of the number of tasks, all parts
/// have the size `part_size`.
pub proof fn law_part_sizes(content_length: nat, tasks: nat)
    requires
        content_length >= 1,
        tasks >= 1,
    ensures
        ({
            let (part_size, decrease) = spec_split_content(content_length, tasks);
            &&& forall|i: nat|
                i < tasks ==> #[trigger] spec_part_len(part_size, decrease, i) == if i
                    < decrease {
                    part_size as int
                } else {
                    part_size - 1
                }
            &&& full_size_parts(part_size, decrease, tasks).finite()
            &&& full_size_parts(part_size, decrease, tasks).len() == decrease
            &&& content_length % tasks == 0 ==> decrease == tasks
        }),
{
    let (part_size, decrease) = spec_split_content(content_length, tasks);
    lemma_split_shape(content_length, tasks);
    assert forall|i: nat| i < tasks implies #[trigger] spec_part_len(part_size, decrease, i) == if i
        < decrease {
        part_size as int
    } else {
        part_size - 1
    } by {
        lemma_part_step(part_size, decrease, i);
    }
    assert(full_size_parts(part_size, decrease, tasks) =~= vstd::set_lib::set_int_range(
        0,
        decrease as int,
    )) by {
        assert forall|i: int|
            full_size_parts(part_size, decrease, tasks).contains(i)
                <==> vstd::set_lib::set_int_range(0, decrease as int).contains(i) by {
            if 0 <= i < tasks {
                lemma_part_step(part_size, decrease, i as nat);
            }
        }
    }
    vstd::set_lib::lemma_int_range(0, decrease as int);
}

/// Every range of a split of a resource whose length a `u64` holds lies
/// within `u64` offsets.
pub proof fn lemma_split_ranges_fit(content_length: nat, tasks: nat, index: nat)
    requires
        1 <= content_length <= u64::MAX,
        tasks >= 1,
        index < tasks,
    ensures
        part_range_fits(
            spec_split_content(content_length, tasks).0,
            spec_split_content(content_length, tasks).1,
            index,
        ),
{
    let (part_size, decrease) = spec_split_content(content_length, tasks);
    lemma_split_shape(content_length, tasks);
    law_ranges_partition_content(content_length, tasks);
    lemma_part_start_monotonic(part_size, decrease, 0, index);
    lemma_part_step(part_size, decrease, index);
    lemma_part_start_monotonic(part_size, decrease, index + 1, tasks);
    lemma_part_start_monotonic(part_size, decrease, 1, index + 1);
    assert(spec_part_start(part_size, decrease, 1) == part_size) by (nonlinear_arith)
        requires
            decrease >= 1,
    ;
    assert(spec_part_start(part_size, decrease, tasks) == content_length) by {
        lemma_total_len_is_next_start(part_size, decrease, tasks);
        law_part_sizes_sum_to_content_length(content_length, tasks);
    }
}

/// The inclusive byte range of part `index`, as a pair of `u64` offsets.
pub open spec fn spec_part_range(split: (u64, u64), index: int) -> (u64, u64) {
    (
        spec_part_start(split.0 as nat, split.1 as nat, index as nat) as u64,
        spec_part_end(split.0 as nat, split.1 as nat, index as nat) as u64,
    )
}

/// Whether the ranges of the first `tasks_count` parts of a split can be
/// computed.
pub open spec fn split_fits(split: (u64, u64), tasks_count: u8) -> bool {
    forall|i: int|
        0 <= i < tasks_count ==> #[trigger] part_range_fits(split.0 as nat, split.1 as nat, i as nat)
}

/// The split of `content_length` bytes among `tasks_count` tasks, as a pair
/// of `u64`.
pub open spec fn spec_split_pair(content_length: u64, tasks_count: u8) -> (u64, u64) {
    (
        spec_split_content(content_length as nat, tasks_count as nat).0 as u64,
        spec_split_content(content_length as nat, tasks_count as nat).1 as u64,
    )
}

/// The split of a resource that is not empty can be computed for every
/// task, and its parts add up to the length of the resource.
pub proof fn lemma_split_pair_fits(content_length: u64, tasks_count: u8)
    requires
        content_length >= 1,
        tasks_count >= 1,
    ensures
        spec_split_pair(content_length, tasks_count).0 == spec_split_content(
            content_length as nat,
            tasks_count as nat,
        ).0,
        spec_split_pair(content_length, tasks_count).1 == spec_split_content(
            content_length as nat,
            tasks_count as nat,
        ).1,
        split_fits(spec_split_pair(content_length, tasks_count), tasks_count),
        spec_total_len(
            spec_split_pair(content_length, tasks_count).0 as nat,
            spec_split_pair(content_length, tasks_count).1 as nat,
            tasks_count as nat,
        ) == content_length,
{
    let (part_size, decrease) = spec_split_content(content_length as nat, tasks_count as nat);
    lemma_split_shape(content_length as nat, tasks_count as nat);
    assert(part_size <= content_length) by (nonlinear_arith)
        requires
            tasks_count * part_size - (tasks_count - decrease) == content_length,
            1 <= decrease <= tasks_count,
            part_size >= 1,
    ;
    assert forall|i: int| 0 <= i < tasks_count implies #[trigger] part_range_fits(
        part_size,
        decrease,
        i as nat,
    ) by {
        lemma_split_ranges_fit(content_length as nat, tasks_count as nat, i as nat);
    }
    law_part_sizes_sum_to_content_length(content_length as nat, tasks_count as nat);
}

/// No part of a split reaches beyond the last byte of the resource.
pub proof fn lemma_part_end_within(content_length: nat, tasks: nat, index: nat)
    requires
        content_length >= 1,
        tasks >= 1,
        index < tasks,
    ensures
        spec_part_end(
            spec_split_content(content_length, tasks).0,
            spec_split_content(content_length, tasks).1,
            index,
        ) + 1 <= content_length,
{
    let (part_size, decrease) = spec_split_content(content_length, tasks);
    law_ranges_partition_content(content_length, tasks);
    let last = (tasks - 1) as nat;
    if index < last {
        assert(spec_part_end(part_size, decrease, index) < spec_part_start(
            part_size,
            decrease,
            last,
        ));
        assert(spec_part_start(part_size, decrease, last) <= spec_part_end(
            part_size,
            decrease,
            last,
        ) + 1);
    }
}

} // verus!
