//! Planning the rest of a download from what its state file holds.

use vstd::prelude::*;
use crate::config::HttpDownloadConfig;
use crate::info::HttpDownloadInfo;
use crate::planner::{
    calculate_part_range, determine_mode, lemma_split_pair_fits, part_range_fits,
    spec_determine_mode, spec_part_end, spec_part_len, spec_part_range, spec_part_start,
    spec_split_content, spec_split_pair, spec_total_len, split_fits, try_split_content,
    HttpDownloadMode,
};
use crate::progress_state::{ProgressState, StateError};
use crate::setup::{speed_sharers, spec_plan_split, spec_speed_sharers, DownloadPlan};
use crate::throttle::{spec_task_share, task_share};

verus! {

/// The bytes of the first `count` parts that a state file says are written:
/// for each part, its write frontier less its first byte.
pub open spec fn spec_resumed_bytes(split: (u64, u64), offsets: Seq<u64>, count: int) -> int
    decreases count,
{
    if count <= 0 {
        0
    } else {
        spec_resumed_bytes(split, offsets, count - 1) + (offsets[count - 1] - spec_part_start(
            split.0 as nat,
            split.1 as nat,
            (count - 1) as nat,
        ))
    }
}

/// Whether the write frontier of each of the first `count` parts lies
/// within its part: not before its first byte, and at most one past its last.
pub open spec fn frontiers_within_parts(split: (u64, u64), offsets: Seq<u64>, count: int) -> bool {
    &&& count <= offsets.len()
    &&& forall|i: int|
        0 <= i < count ==> spec_part_start(split.0 as nat, split.1 as nat, i as nat)
            <= #[trigger] offsets[i] <= spec_part_end(split.0 as nat, split.1 as nat, i as nat)
            + 1
}

/// Whether a download can be resumed from the write frontiers `offsets`: a
/// stream needs one frontier; a multi-task download needs a split whose
/// ranges can be computed and whose parts add up to a length that a `u64`
/// holds, and a frontier within each part.
pub open spec fn resumable_from(
    tasks_count: u8,
    split_result: Option<(u64, u64)>,
    mode: HttpDownloadMode,
    offsets: Seq<u64>,
) -> bool {
    match mode {
        HttpDownloadMode::NonResumable => true,
        HttpDownloadMode::ResumableStream => offsets.len() >= 1,
        HttpDownloadMode::ResumableMultithread => {
            &&& split_result matches Some(split)
            &&& split_fits(split, tasks_count)
            &&& frontiers_within_parts(split, offsets, tasks_count as int)
            &&& spec_total_len(split.0 as nat, split.1 as nat, tasks_count as nat) <= u64::MAX
        },
    }
}

/// The byte ranges that are still to fetch when a download is resumed: each
/// part from its write frontier to its end, or the one open-ended range from
/// the frontier of a stream.
pub open spec fn spec_resumed_ranges(
    tasks_count: u8,
    split_result: Option<(u64, u64)>,
    mode: HttpDownloadMode,
    offsets: Seq<u64>,
) -> Seq<(u64, u64)> {
    match mode {
        HttpDownloadMode::NonResumable => Seq::empty(),
        HttpDownloadMode::ResumableStream => seq![(offsets[0], 0u64)],
        HttpDownloadMode::ResumableMultithread => Seq::new(
            tasks_count as nat,
            |i: int| (offsets[i], spec_part_range(split_result.unwrap(), i).1),
        ),
    }
}

/// The number of bytes that are already in the data file when a download is
/// resumed.
pub open spec fn spec_resumed_total(
    tasks_count: u8,
    split_result: Option<(u64, u64)>,
    mode: HttpDownloadMode,
    offsets: Seq<u64>,
) -> int {
    match mode {
        HttpDownloadMode::NonResumable => 0,
        HttpDownloadMode::ResumableStream => offsets[0] as int,
        HttpDownloadMode::ResumableMultithread => spec_resumed_bytes(
            split_result.unwrap(),
            offsets,
            tasks_count as int,
        ),
    }
}

/// With every write frontier within its part, the bytes already written are
/// no more than the parts hold together.
pub proof fn lemma_resumed_bytes_bounded(split: (u64, u64), offsets: Seq<u64>, count: int)
    requires
        0 <= count,
        frontiers_within_parts(split, offsets, count),
    ensures
        0 <= spec_resumed_bytes(split, offsets, count) <= spec_total_len(
            split.0 as nat,
            split.1 as nat,
            count as nat,
        ),
    decreases count,
{
    if count > 0 {
        lemma_resumed_bytes_bounded(split, offsets, count - 1);
        assert(offsets[count - 1] <= spec_part_end(
            split.0 as nat,
            split.1 as nat,
            (count - 1) as nat,
        ) + 1);
    }
}

/// The parts up to `low` hold no more bytes than the parts up to `high`,
/// where no part in between is of negative length.
pub proof fn lemma_total_len_monotonic(split: (u64, u64), low: int, high: int)
    requires
        0 <= low <= high,
        forall|i: int|
            low <= i < high ==> #[trigger] spec_part_len(split.0 as nat, split.1 as nat, i as nat)
                >= 0,
    ensures
        spec_total_len(split.0 as nat, split.1 as nat, low as nat) <= spec_total_len(
            split.0 as nat,
            split.1 as nat,
            high as nat,
        ),
    decreases high - low,
{
    if low < high {
        lemma_total_len_monotonic(split, low, high - 1);
        assert(spec_part_len(split.0 as nat, split.1 as nat, (high - 1) as nat) >= 0);
    }
}

/// Works out what is left to fetch when a download is resumed from a state
/// file, and how many bytes are already there: the ranges run from the
/// write frontiers to the ends of the parts, and the bytes already there
/// are, part by part, the frontier less the first byte of the part.
pub fn get_byte_ranges_and_downloaded_bytes(
    config: &HttpDownloadConfig,
    mode: &HttpDownloadMode,
    state: &ProgressState,
) -> (r: (Vec<(u64, u64)>, u64))
    requires
        resumable_from(config.tasks_count, config.split_result, *mode, state.spec_offsets()),
    ensures
        r.0@ == spec_resumed_ranges(
            config.tasks_count,
            config.split_result,
            *mode,
            state.spec_offsets(),
        ),
        r.1 == spec_resumed_total(
            config.tasks_count,
            config.split_result,
            *mode,
            state.spec_offsets(),
        ),
{
    let mut byte_ranges: Vec<(u64, u64)> = Vec::new();
    let mut downloaded_bytes: u64 = 0;
    match mode {
        HttpDownloadMode::NonResumable => {},
        HttpDownloadMode::ResumableStream => {
            let progress: u64 = state.get_progress(0);
            byte_ranges.push((progress, 0));
            downloaded_bytes = progress;
        },
        HttpDownloadMode::ResumableMultithread => {
            let split = match config.split_result {
                Some(split) => split,
                None => {
                    return (byte_ranges, downloaded_bytes);
                },
            };
            let ghost offsets = state.spec_offsets();
            let mut index: u8 = 0;
            while index < config.tasks_count
                invariant
                    index <= config.tasks_count,
                    offsets == state.spec_offsets(),
                    split_fits(split, config.tasks_count),
                    frontiers_within_parts(split, offsets, config.tasks_count as int),
                    spec_total_len(split.0 as nat, split.1 as nat, config.tasks_count as nat)
                        <= u64::MAX,
                    byte_ranges@.len() == index,
                    forall|i: int|
                        0 <= i < index ==> byte_ranges@[i] == (
                            offsets[i],
                            spec_part_range(split, i).1,
                        ),
                    downloaded_bytes == spec_resumed_bytes(split, offsets, index as int),
                decreases config.tasks_count - index,
            {
                proof {
                    let i = index as int;
                    assert(part_range_fits(split.0 as nat, split.1 as nat, i as nat));
                }
                let (start, end) = calculate_part_range(split, index as u64);
                let start_offset: u64 = state.get_progress(index as usize);
                proof {
                    lemma_resumed_bytes_bounded(split, offsets, index + 1);
                    assert forall|i: int|
                        index + 1 <= i < config.tasks_count implies #[trigger] spec_part_len(
                        split.0 as nat,
                        split.1 as nat,
                        i as nat,
                    ) >= 0 by {
                        assert(spec_part_start(split.0 as nat, split.1 as nat, i as nat)
                            <= offsets[i]);
                    }
                    lemma_total_len_monotonic(split, index + 1, config.tasks_count as int);
                }
                byte_ranges.push((start_offset, end));
                downloaded_bytes = downloaded_bytes + (start_offset - start);
                index = index + 1;
            }
        },
    }
    assert(byte_ranges@ =~= spec_resumed_ranges(
        config.tasks_count,
        config.split_result,
        *mode,
        state.spec_offsets(),
    ));
    (byte_ranges, downloaded_bytes)
}

/// Tests whether every write frontier of a state lies within its part of
/// the split.
fn frontiers_fit(split: (u64, u64), tasks_count: u8, state: &ProgressState) -> (r: bool)
    requires
        split_fits(split, tasks_count),
    ensures
        r == frontiers_within_parts(split, state.spec_offsets(), tasks_count as int),
{
    if state.segments() < tasks_count as usize {
        return false;
    }
    let ghost offsets = state.spec_offsets();
    let mut index: u8 = 0;
    while index < tasks_count
        invariant
            index <= tasks_count,
            tasks_count <= offsets.len(),
            offsets == state.spec_offsets(),
            split_fits(split, tasks_count),
            frontiers_within_parts(split, offsets, index as int),
        decreases tasks_count - index,
    {
        proof {
            let i = index as int;
            assert(part_range_fits(split.0 as nat, split.1 as nat, i as nat));
        }
        let (start, end) = calculate_part_range(split, index as u64);
        let frontier: u64 = state.get_progress(index as usize);
        if frontier < start || frontier as u128 > end as u128 + 1 {
            return false;
        }
        index = index + 1;
    }
    true
}

/// Plans the rest of a download from what its state file holds: takes the
/// number of tasks from the file, gives each task its share of the speed
/// limit, chooses the mode, splits the content, lists what is left of each
/// range, and counts the bytes that are already there. A state whose
/// write frontiers do not fit the download is turned down.
pub fn plan_resume(
    config: HttpDownloadConfig,
    filename: String,
    content_length: Option<u64>,
    tasks_count: u8,
    throttle_speed: Option<u64>,
    state: &ProgressState,
) -> (r: Result<DownloadPlan, StateError>)
    ensures
        ({
            let mode = spec_determine_mode(tasks_count, content_length, tasks_count > 0);
            let split = spec_plan_split(mode, content_length, tasks_count);
            match r {
                Ok(plan) => {
                    &&& resumable_from(tasks_count, split, mode, state.spec_offsets())
                    &&& plan.mode == mode
                    &&& plan.info.spec_filename() == filename@
                    &&& plan.info.spec_content_length() == content_length
                    &&& plan.info.spec_is_resumable() == (tasks_count > 0)
                    &&& plan.info.spec_downloaded_bytes() == spec_resumed_total(
                        tasks_count,
                        split,
                        mode,
                        state.spec_offsets(),
                    )
                    &&& plan.config.tasks_count == tasks_count
                    &&& plan.config.split_result == split
                    &&& plan.config.throttle_config.spec_task_speed() == spec_task_share(
                        throttle_speed,
                        spec_speed_sharers(tasks_count),
                    )
                    &&& plan.config.throttle_config.spec_has_throttle_changed()
                        == config.throttle_config.spec_has_throttle_changed()
                    &&& plan.config.is_new == config.is_new
                    &&& plan.config.timeout == config.timeout
                    &&& plan.config.directory == config.directory
                    &&& plan.byte_ranges@ == spec_resumed_ranges(
                        tasks_count,
                        split,
                        mode,
                        state.spec_offsets(),
                    )
                },
                Err(e) => e == StateError::Inconsistent && !resumable_from(
                    tasks_count,
                    split,
                    mode,
                    state.spec_offsets(),
                ),
            }
        }),
{
    let mut config = config;
    config.tasks_count = tasks_count;
    let share: u64 = task_share(throttle_speed, speed_sharers(tasks_count));
    config.throttle_config.set_task_speed(share);
    let mut info = HttpDownloadInfo::from_state(filename, content_length, tasks_count);
    let mode = determine_mode(tasks_count, &info);
    config.split_result = try_split_content(&mode, &content_length, tasks_count);
    match mode {
        HttpDownloadMode::NonResumable => {},
        HttpDownloadMode::ResumableStream => {
            if state.segments() < 1 {
                return Err(StateError::Inconsistent);
            }
        },
        HttpDownloadMode::ResumableMultithread => {
            let length: u64 = match content_length {
                Some(length) => length,
                None => {
                    return Err(StateError::Inconsistent);
                },
            };
            let split = match config.split_result {
                Some(split) => split,
                None => {
                    return Err(StateError::Inconsistent);
                },
            };
            if length == 0 {
                proof {
                    assert(0nat % (tasks_count as nat) == 0 && 0nat / (tasks_count as nat) == 0)
                        by (nonlinear_arith)
                        requires
                            tasks_count > 0,
                    ;
                    assert(spec_split_content(0, tasks_count as nat) == (0nat, tasks_count as nat));
                    assert(0 * 0 == 0) by (nonlinear_arith);
                    assert((0 + 1) * 0 == 0) by (nonlinear_arith);
                    assert(!part_range_fits(0, tasks_count as nat, 0));
                }
                return Err(StateError::Inconsistent);
            }
            proof {
                lemma_split_pair_fits(length, tasks_count);
            }
            if !frontiers_fit(split, tasks_count, state) {
                return Err(StateError::Inconsistent);
            }
        },
    }
    let (byte_ranges, downloaded_bytes) = get_byte_ranges_and_downloaded_bytes(
        &config,
        &mode,
        state,
    );
    info.add_to_downloaded_bytes(downloaded_bytes);
    Ok(DownloadPlan { info, mode, config, byte_ranges })
}

/// The count of the bytes that are there moves with the write frontiers:
/// moving the frontier of one part changes the count by as much, so that a
/// frontier that moves forward never makes the count smaller.
pub proof fn law_downloaded_bytes_follow_frontier(
    split: (u64, u64),
    offsets: Seq<u64>,
    count: int,
    index: int,
    moved: u64,
)
    requires
        0 <= index < offsets.len(),
        0 <= count <= offsets.len(),
    ensures
        spec_resumed_bytes(split, offsets.update(index, moved), count) == spec_resumed_bytes(
            split,
            offsets,
            count,
        ) + if index < count {
            moved - offsets[index]
        } else {
            0
        },
    decreases count,
{
    if count > 0 {
        law_downloaded_bytes_follow_frontier(split, offsets, count - 1, index, moved);
    }
}

/// The bytes counted as downloaded never exceed the content length while
/// every write frontier lies within its part: counted part by part as the
/// frontier less the first byte of the part, they are at least 0 and at
/// most the length of the resource.
pub proof fn law_downloaded_bytes_within_content_length(
    content_length: u64,
    tasks_count: u8,
    frontiers: Seq<u64>,
)
    requires
        content_length >= 1,
        tasks_count >= 1,
        frontiers_within_parts(
            spec_split_pair(content_length, tasks_count),
            frontiers,
            tasks_count as int,
        ),
    ensures
        0 <= spec_resumed_bytes(
            spec_split_pair(content_length, tasks_count),
            frontiers,
            tasks_count as int,
        ) <= content_length,
{
    lemma_split_pair_fits(content_length, tasks_count);
    lemma_resumed_bytes_bounded(
        spec_split_pair(content_length, tasks_count),
        frontiers,
        tasks_count as int,
    );
}

} // verus!
