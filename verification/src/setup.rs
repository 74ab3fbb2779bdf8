//! Planning a new download from what the probe found out.

use vstd::prelude::*;
use crate::config::HttpDownloadConfig;
use crate::info::HttpDownloadInfo;
use crate::planner::{
    calculate_part_range, determine_mode, lemma_split_pair_fits, part_range_fits,
    spec_determine_mode, spec_part_end, spec_part_range, spec_part_start, spec_split_content,
    spec_split_pair, split_fits, try_split_content, HttpDownloadMode,
};
use crate::throttle::{spec_task_share, task_share};

verus! {

/// The byte ranges that a new download asks for: none where the server
/// serves no ranges, the one open-ended range `(0, 0)` for a stream, and the
/// ranges of the split for a multi-task download.
pub open spec fn spec_byte_ranges(
    tasks_count: u8,
    split_result: Option<(u64, u64)>,
    mode: HttpDownloadMode,
) -> Seq<(u64, u64)> {
    match mode {
        HttpDownloadMode::NonResumable => Seq::empty(),
        HttpDownloadMode::ResumableStream => seq![(0u64, 0u64)],
        HttpDownloadMode::ResumableMultithread => Seq::new(
            tasks_count as nat,
            |i: int| spec_part_range(split_result.unwrap(), i),
        ),
    }
}

/// Lists the byte ranges of a new download. In a range `(start, 0)` of a
/// stream the 0 stands for "no end".
pub fn generate_byte_ranges(config: &HttpDownloadConfig, mode: &HttpDownloadMode) -> (r: Vec<
    (u64, u64),
>)
    requires
        *mode == HttpDownloadMode::ResumableMultithread ==> config.split_result is Some
            && split_fits(config.split_result.unwrap(), config.tasks_count),
    ensures
        r@ == spec_byte_ranges(config.tasks_count, config.split_result, *mode),
        *mode == HttpDownloadMode::ResumableMultithread ==> r@.len() == config.tasks_count
            && forall|i: int|
            0 <= i < config.tasks_count ==> (#[trigger] r@[i]).0 == spec_part_start(
                config.split_result.unwrap().0 as nat,
                config.split_result.unwrap().1 as nat,
                i as nat,
            ) && r@[i].1 == spec_part_end(
                config.split_result.unwrap().0 as nat,
                config.split_result.unwrap().1 as nat,
                i as nat,
            ),
{
    let mut byte_ranges: Vec<(u64, u64)> = Vec::new();
    match mode {
        HttpDownloadMode::NonResumable => {},
        HttpDownloadMode::ResumableStream => {
            byte_ranges.push((0, 0));
        },
        HttpDownloadMode::ResumableMultithread => {
            let split = match config.split_result {
                Some(split) => split,
                None => {
                    return byte_ranges;
                },
            };
            let mut index: u8 = 0;
            while index < config.tasks_count
                invariant
                    index <= config.tasks_count,
                    split_fits(split, config.tasks_count),
                    byte_ranges@.len() == index,
                    forall|i: int|
                        0 <= i < index ==> byte_ranges@[i] == spec_part_range(split, i),
                decreases config.tasks_count - index,
            {
                proof {
                    let i = index as int;
                    assert(part_range_fits(split.0 as nat, split.1 as nat, i as nat));
                }
                byte_ranges.push(calculate_part_range(split, index as u64));
                index = index + 1;
            }
        },
    }
    assert(byte_ranges@ =~= spec_byte_ranges(config.tasks_count, config.split_result, *mode));
    proof {
        if *mode == HttpDownloadMode::ResumableMultithread {
            let split = config.split_result.unwrap();
            assert forall|i: int| 0 <= i < config.tasks_count implies (#[trigger] byte_ranges@[i]).0
                == spec_part_start(split.0 as nat, split.1 as nat, i as nat) && byte_ranges@[i].1
                == spec_part_end(split.0 as nat, split.1 as nat, i as nat) by {
                assert(part_range_fits(split.0 as nat, split.1 as nat, i as nat));
            }
        }
    }
    byte_ranges
}

/// The split that a download has: that of its content among its tasks
/// where every task has a bounded range, else none.
pub open spec fn spec_plan_split(
    mode: HttpDownloadMode,
    content_length: Option<u64>,
    tasks_count: u8,
) -> Option<(u64, u64)> {
    if mode == HttpDownloadMode::ResumableMultithread {
        Some(spec_split_pair(content_length.unwrap(), tasks_count))
    } else {
        None
    }
}

/// The number of tasks that share the speed limit: the number of tasks of
/// the download, or the one fetch of a download that has none.
pub open spec fn spec_speed_sharers(tasks_count: u8) -> u64 {
    if tasks_count == 0 {
        1
    } else {
        tasks_count as u64
    }
}

/// The number of tasks that share the speed limit.
pub fn speed_sharers(tasks_count: u8) -> (r: u64)
    ensures
        r == spec_speed_sharers(tasks_count),
        r > 0,
{
    if tasks_count == 0 {
        1
    } else {
        tasks_count as u64
    }
}

/// What a download is made of once it is planned.
#[derive(Debug)]
pub struct DownloadPlan {
    pub info: HttpDownloadInfo,
    pub mode: HttpDownloadMode,
    pub config: HttpDownloadConfig,
    /// The inclusive byte range of each fetch task; the 0 in the one range
    /// `(start, 0)` of a stream stands for "no end".
    pub byte_ranges: Vec<(u64, u64)>,
}

/// Whether a new download can be planned: a multi-task download needs at
/// least one task and a resource that is not empty.
pub open spec fn spec_can_plan(
    tasks_count: u8,
    content_length: Option<u64>,
    is_resumable: bool,
) -> bool {
    spec_determine_mode(tasks_count, content_length, is_resumable)
        == HttpDownloadMode::ResumableMultithread ==> tasks_count >= 1 && content_length.unwrap()
        >= 1
}

/// Tests whether `plan_download` may be called.
pub fn can_plan(tasks_count: u8, info: &HttpDownloadInfo) -> (r: bool)
    ensures
        r == spec_can_plan(tasks_count, info.spec_content_length(), info.spec_is_resumable()),
{
    match determine_mode(tasks_count, info) {
        HttpDownloadMode::ResumableMultithread => match info.content_length() {
            Some(length) => tasks_count >= 1 && length >= 1,
            None => true,
        },
        _ => true,
    }
}

/// Plans a new download from what the probe found out: chooses the mode,
/// sets the number of tasks to 0 where the download cannot be resumed,
/// gives each task its share of the speed limit, splits the content and
/// lists the byte ranges.
pub fn plan_download(
    config: HttpDownloadConfig,
    info: HttpDownloadInfo,
    throttle_speed: Option<u64>,
) -> (plan: DownloadPlan)
    requires
        spec_can_plan(config.tasks_count, info.spec_content_length(), info.spec_is_resumable()),
    ensures
        plan.info == info,
        plan.mode == spec_determine_mode(
            config.tasks_count,
            info.spec_content_length(),
            info.spec_is_resumable(),
        ),
        plan.config.tasks_count == if plan.mode == HttpDownloadMode::NonResumable {
            0
        } else {
            config.tasks_count
        },
        plan.config.split_result == spec_plan_split(
            plan.mode,
            info.spec_content_length(),
            plan.config.tasks_count,
        ),
        plan.config.throttle_config.spec_task_speed() == spec_task_share(
            throttle_speed,
            spec_speed_sharers(plan.config.tasks_count),
        ),
        plan.config.throttle_config.spec_has_throttle_changed()
            == config.throttle_config.spec_has_throttle_changed(),
        plan.config.is_new == config.is_new,
        plan.config.timeout == config.timeout,
        plan.config.directory == config.directory,
        plan.byte_ranges@ == spec_byte_ranges(
            plan.config.tasks_count,
            plan.config.split_result,
            plan.mode,
        ),
        plan.mode == HttpDownloadMode::ResumableMultithread ==> split_fits(
            plan.config.split_result.unwrap(),
            plan.config.tasks_count,
        ),
        plan.mode == HttpDownloadMode::ResumableMultithread ==> plan.byte_ranges@.len()
            == config.tasks_count && forall|i: int|
            0 <= i < config.tasks_count ==> (#[trigger] plan.byte_ranges@[i]).0
                == spec_part_start(
                spec_split_content(
                    info.spec_content_length().unwrap() as nat,
                    config.tasks_count as nat,
                ).0,
                spec_split_content(
                    info.spec_content_length().unwrap() as nat,
                    config.tasks_count as nat,
                ).1,
                i as nat,
            ) && plan.byte_ranges@[i].1 == spec_part_end(
                spec_split_content(
                    info.spec_content_length().unwrap() as nat,
                    config.tasks_count as nat,
                ).0,
                spec_split_content(
                    info.spec_content_length().unwrap() as nat,
                    config.tasks_count as nat,
                ).1,
                i as nat,
            ),
{
    let mode = determine_mode(config.tasks_count, &info);
    let mut config = config;
    if mode == HttpDownloadMode::NonResumable {
        config.tasks_count = 0;
    }
    let share: u64 = task_share(throttle_speed, speed_sharers(config.tasks_count));
    config.throttle_config.set_task_speed(share);
    let content_length = info.content_length();
    config.split_result = try_split_content(&mode, &content_length, config.tasks_count);
    proof {
        if mode == HttpDownloadMode::ResumableMultithread {
            lemma_split_pair_fits(content_length.unwrap(), config.tasks_count);
        }
    }
    let byte_ranges = generate_byte_ranges(&config, &mode);
    DownloadPlan { info, mode, config, byte_ranges }
}

} // verus!
