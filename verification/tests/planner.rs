use bytefetch::config::HttpDownloadConfig;
use bytefetch::info::HttpDownloadInfo;
use bytefetch::from_state::{get_byte_ranges_and_downloaded_bytes, plan_resume};
use bytefetch::planner::{
    calculate_part_range, determine_mode, fetch_tasks, keeps_state, range_starts, split_content,
    try_split_content, HttpDownloadMode,
};
use bytefetch::progress_state::{ProgressState, StateError};
use bytefetch::setup::{can_plan, generate_byte_ranges, plan_download, speed_sharers};

fn info_of(content_length: Option<u64>, is_resumable: bool) -> HttpDownloadInfo {
    HttpDownloadInfo::default().set_content_length(content_length).set_is_resumable(is_resumable)
}

fn ranges_of(content_length: u64, tasks: u64) -> Vec<(u64, u64)> {
    let split = split_content(content_length, tasks);
    (0..tasks).map(|index| calculate_part_range(split, index)).collect()
}

fn state_with(offsets: Vec<u64>) -> ProgressState {
    let tasks = offsets.len() as u8;
    ProgressState::new("https://x/y", Some(1000), tasks, offsets).0
}

#[test]
fn split_1003_into_4() {
    assert_eq!(split_content(1003, 4), (251, 3));
    assert_eq!(ranges_of(1003, 4), vec![(0, 250), (251, 501), (502, 752), (753, 1002)]);
    let sizes: Vec<u64> = ranges_of(1003, 4).iter().map(|(s, e)| e - s + 1).collect();
    assert_eq!(sizes, vec![251, 251, 251, 250]);
}

#[test]
fn split_1000_into_4() {
    assert_eq!(split_content(1000, 4), (250, 4));
    assert_eq!(ranges_of(1000, 4), vec![(0, 249), (250, 499), (500, 749), (750, 999)]);
}

#[test]
fn split_of_a_single_task_is_the_whole() {
    assert_eq!(split_content(17, 1), (17, 1));
    assert_eq!(ranges_of(17, 1), vec![(0, 16)]);
}

#[test]
fn split_with_more_tasks_than_bytes_has_empty_parts() {
    assert_eq!(split_content(3, 4), (1, 3));
    assert_eq!(ranges_of(3, 4), vec![(0, 0), (1, 1), (2, 2), (3, 2)]);
    assert_eq!(ranges_of(1, 4), vec![(0, 0), (1, 0), (1, 0), (1, 0)]);
}

#[test]
fn split_of_the_largest_length_does_not_overflow() {
    let split = split_content(u64::MAX, 64);
    assert_eq!(split, (288230376151711744, 63));
    assert_eq!(calculate_part_range(split, 0), (0, 288230376151711743));
    assert_eq!(calculate_part_range(split, 63).1, u64::MAX - 1);
    assert_eq!(calculate_part_range(split, 62).1 + 1, calculate_part_range(split, 63).0);
}

#[test]
fn ranges_are_contiguous_and_cover_the_content() {
    for content_length in [1u64, 2, 3, 63, 64, 65, 1000, 1003, 4096, 999_999, u64::MAX] {
        for tasks in 1u64..=64 {
            let ranges = ranges_of(content_length, tasks);
            assert_eq!(ranges[0].0, 0);
            for index in 1..ranges.len() {
                assert_eq!(ranges[index].0, ranges[index - 1].1 + 1);
            }
            assert_eq!(ranges[ranges.len() - 1].1, content_length - 1);
        }
    }
}

#[test]
fn part_sizes_sum_to_the_content_length() {
    for content_length in [1u64, 2, 3, 63, 64, 65, 1000, 1003, 4096, 999_999, u64::MAX] {
        for tasks in 1u64..=64 {
            let total: u128 = ranges_of(content_length, tasks)
                .iter()
                .map(|(start, end)| (*end as u128 + 1) - *start as u128)
                .sum();
            assert_eq!(total, content_length as u128);
        }
    }
}

#[test]
fn exactly_the_first_parts_have_the_full_size() {
    for content_length in [1u64, 2, 3, 63, 64, 65, 1000, 1003, 4096, 999_999] {
        for tasks in 1u64..=64 {
            let (part_size, before_decrease) = split_content(content_length, tasks);
            let ranges = ranges_of(content_length, tasks);
            let mut full = 0;
            for (index, (start, end)) in ranges.iter().enumerate() {
                let size = end + 1 - start;
                if (index as u64) < before_decrease {
                    assert_eq!(size, part_size);
                } else {
                    assert_eq!(size, part_size - 1);
                }
                if size == part_size {
                    full += 1;
                }
            }
            assert_eq!(full, before_decrease);
            if content_length % tasks == 0 {
                assert_eq!(before_decrease, tasks);
            }
        }
    }
}

#[test]
fn mode_determination() {
    assert_eq!(
        determine_mode(4, &info_of(Some(1000), true)),
        HttpDownloadMode::ResumableMultithread
    );
    assert_eq!(determine_mode(4, &info_of(None, true)), HttpDownloadMode::ResumableStream);
    assert_eq!(determine_mode(4, &info_of(Some(1000), false)), HttpDownloadMode::NonResumable);
    assert_eq!(determine_mode(1, &info_of(Some(1000), true)), HttpDownloadMode::ResumableStream);
    assert_eq!(determine_mode(1, &info_of(None, false)), HttpDownloadMode::NonResumable);
}

#[test]
fn only_a_multi_task_download_is_split() {
    assert_eq!(
        try_split_content(&HttpDownloadMode::ResumableMultithread, &Some(1003), 4),
        Some((251, 3))
    );
    assert_eq!(try_split_content(&HttpDownloadMode::ResumableStream, &Some(1003), 4), None);
    assert_eq!(try_split_content(&HttpDownloadMode::NonResumable, &None, 0), None);
}

#[test]
fn byte_ranges_follow_the_mode() {
    let mut config = HttpDownloadConfig::default().set_tasks_count(4);
    config.split_result = Some((251, 3));
    assert_eq!(
        generate_byte_ranges(&config, &HttpDownloadMode::ResumableMultithread),
        vec![(0, 250), (251, 501), (502, 752), (753, 1002)]
    );
    assert_eq!(generate_byte_ranges(&config, &HttpDownloadMode::ResumableStream), vec![(0, 0)]);
    assert_eq!(generate_byte_ranges(&config, &HttpDownloadMode::NonResumable), vec![]);
}

#[test]
fn resume_arithmetic() {
    let mut config = HttpDownloadConfig::default().set_tasks_count(4);
    config.split_result = Some(split_content(1000, 4));
    let state = state_with(vec![100, 350, 600, 800]);
    let (ranges, downloaded) = get_byte_ranges_and_downloaded_bytes(
        &config,
        &HttpDownloadMode::ResumableMultithread,
        &state,
    );
    assert_eq!(downloaded, 350);
    assert_eq!(ranges, vec![(100, 249), (350, 499), (600, 749), (800, 999)]);
}

#[test]
fn resume_of_a_stream_starts_at_its_frontier() {
    let config = HttpDownloadConfig::default().set_tasks_count(1);
    let state = state_with(vec![4321]);
    let (ranges, downloaded) =
        get_byte_ranges_and_downloaded_bytes(&config, &HttpDownloadMode::ResumableStream, &state);
    assert_eq!(ranges, vec![(4321, 0)]);
    assert_eq!(downloaded, 4321);
    let (ranges, downloaded) =
        get_byte_ranges_and_downloaded_bytes(&config, &HttpDownloadMode::NonResumable, &state);
    assert_eq!(ranges, vec![]);
    assert_eq!(downloaded, 0);
}

#[test]
fn resumed_bytes_never_exceed_the_content_length() {
    let mut config = HttpDownloadConfig::default().set_tasks_count(4);
    config.split_result = Some(split_content(1003, 4));
    let state = state_with(vec![251, 502, 753, 1003]);
    let (ranges, downloaded) = get_byte_ranges_and_downloaded_bytes(
        &config,
        &HttpDownloadMode::ResumableMultithread,
        &state,
    );
    assert_eq!(downloaded, 1003);
    assert_eq!(ranges, vec![(251, 250), (502, 501), (753, 752), (1003, 1002)]);
}

#[test]
fn plan_of_a_multi_task_download() {
    let info = info_of(Some(1003), true);
    let config = HttpDownloadConfig::default().set_tasks_count(4);
    assert!(can_plan(4, &info));
    let plan = plan_download(config, info, Some(4096));
    assert_eq!(plan.mode, HttpDownloadMode::ResumableMultithread);
    assert_eq!(plan.config.tasks_count, 4);
    assert_eq!(plan.config.split_result, Some((251, 3)));
    assert_eq!(plan.config.throttle_config.task_speed(), 1024);
    assert!(!plan.config.throttle_config.has_throttle_changed());
    assert_eq!(plan.byte_ranges, vec![(0, 250), (251, 501), (502, 752), (753, 1002)]);
    assert_eq!(plan.info.content_length(), Some(1003));
    assert_eq!(plan.info.downloaded_bytes(), 0);
}

#[test]
fn plan_of_a_stream_has_one_open_range() {
    let plan = plan_download(
        HttpDownloadConfig::default().set_tasks_count(8),
        info_of(None, true),
        Some(8000),
    );
    assert_eq!(plan.mode, HttpDownloadMode::ResumableStream);
    assert_eq!(plan.config.tasks_count, 8);
    assert_eq!(plan.config.split_result, None);
    assert_eq!(plan.config.throttle_config.task_speed(), 1000);
    assert_eq!(plan.byte_ranges, vec![(0, 0)]);
}

#[test]
fn plan_of_a_download_that_cannot_be_resumed_has_no_tasks() {
    let plan = plan_download(
        HttpDownloadConfig::default().set_tasks_count(8),
        info_of(Some(1000), false),
        Some(8000),
    );
    assert_eq!(plan.mode, HttpDownloadMode::NonResumable);
    assert_eq!(plan.config.tasks_count, 0);
    assert_eq!(plan.config.split_result, None);
    assert_eq!(plan.config.throttle_config.task_speed(), 8000);
    assert_eq!(plan.byte_ranges, vec![]);
}

#[test]
fn an_empty_resource_cannot_be_planned_for_many_tasks() {
    assert!(!can_plan(4, &info_of(Some(0), true)));
    assert!(!can_plan(0, &info_of(Some(10), true)));
    assert!(can_plan(1, &info_of(Some(0), true)));
    assert!(can_plan(4, &info_of(Some(0), false)));
    assert!(can_plan(4, &info_of(None, true)));
}

#[test]
fn speed_is_shared_among_the_tasks() {
    assert_eq!(speed_sharers(0), 1);
    assert_eq!(speed_sharers(1), 1);
    assert_eq!(speed_sharers(64), 64);
}

#[test]
fn plan_resume_of_a_multi_task_download() {
    let state = state_with(vec![100, 350, 600, 800]);
    let plan = plan_resume(
        HttpDownloadConfig::default().mark_resumed(),
        String::from("file.bin"),
        Some(1000),
        4,
        Some(4000),
        &state,
    )
    .unwrap();
    assert_eq!(plan.mode, HttpDownloadMode::ResumableMultithread);
    assert_eq!(plan.info.filename(), "file.bin");
    assert_eq!(plan.info.content_length(), Some(1000));
    assert!(plan.info.is_resumable());
    assert_eq!(plan.info.downloaded_bytes(), 350);
    assert_eq!(plan.config.tasks_count, 4);
    assert_eq!(plan.config.split_result, Some((250, 4)));
    assert_eq!(plan.config.throttle_config.task_speed(), 1000);
    assert!(!plan.config.is_new);
    assert_eq!(plan.byte_ranges, vec![(100, 249), (350, 499), (600, 749), (800, 999)]);
}

#[test]
fn plan_resume_turns_down_frontiers_outside_their_parts() {
    let config = || HttpDownloadConfig::default().mark_resumed();
    let name = || String::from("file.bin");
    let before_start = state_with(vec![0, 249, 500, 750]);
    assert_eq!(
        plan_resume(config(), name(), Some(1000), 4, None, &before_start).unwrap_err(),
        StateError::Inconsistent
    );
    let past_end = state_with(vec![251, 250, 500, 750]);
    assert_eq!(
        plan_resume(config(), name(), Some(1000), 4, None, &past_end).unwrap_err(),
        StateError::Inconsistent
    );
    let too_few = state_with(vec![0, 250, 500]);
    assert_eq!(
        plan_resume(config(), name(), Some(1000), 4, None, &too_few).unwrap_err(),
        StateError::Inconsistent
    );
    let empty_resource = state_with(vec![0, 0]);
    assert_eq!(
        plan_resume(config(), name(), Some(0), 2, None, &empty_resource).unwrap_err(),
        StateError::Inconsistent
    );
    let no_frontier = state_with(vec![]);
    assert_eq!(
        plan_resume(config(), name(), None, 3, None, &no_frontier).unwrap_err(),
        StateError::Inconsistent
    );
    let at_the_end = state_with(vec![250, 500, 750, 1000]);
    let plan = plan_resume(config(), name(), Some(1000), 4, None, &at_the_end).unwrap();
    assert_eq!(plan.info.downloaded_bytes(), 1000);
}

#[test]
fn plan_resume_without_tasks_cannot_be_resumed() {
    let state = state_with(vec![]);
    let plan = plan_resume(
        HttpDownloadConfig::default().mark_resumed(),
        String::from("f"),
        Some(10),
        0,
        Some(500),
        &state,
    )
    .unwrap();
    assert_eq!(plan.mode, HttpDownloadMode::NonResumable);
    assert!(!plan.info.is_resumable());
    assert_eq!(plan.byte_ranges, vec![]);
    assert_eq!(plan.info.downloaded_bytes(), 0);
    assert_eq!(plan.config.throttle_config.task_speed(), 500);
}

#[test]
fn only_resumable_downloads_keep_state() {
    assert!(!keeps_state(&HttpDownloadMode::NonResumable));
    assert!(keeps_state(&HttpDownloadMode::ResumableStream));
    assert!(keeps_state(&HttpDownloadMode::ResumableMultithread));
}

#[test]
fn write_frontiers_start_at_the_range_starts() {
    assert_eq!(range_starts(&vec![(0, 249), (250, 499), (500, 749), (750, 999)]), vec![0, 250, 500, 750]);
    assert_eq!(range_starts(&vec![(4321, 0)]), vec![4321]);
    assert_eq!(range_starts(&vec![]), vec![]);
}

#[test]
fn only_a_multi_task_download_runs_more_than_one_fetch_task() {
    assert_eq!(fetch_tasks(&HttpDownloadMode::ResumableMultithread, 8), 8);
    assert_eq!(fetch_tasks(&HttpDownloadMode::ResumableMultithread, 64), 64);
    assert_eq!(fetch_tasks(&HttpDownloadMode::ResumableStream, 8), 1);
    assert_eq!(fetch_tasks(&HttpDownloadMode::ResumableStream, 1), 1);
    assert_eq!(fetch_tasks(&HttpDownloadMode::NonResumable, 0), 1);
}

#[test]
fn a_stream_asked_for_many_tasks_has_a_lone_party_and_can_be_resumed() {
    let plan = plan_download(
        HttpDownloadConfig::default().set_tasks_count(8),
        info_of(None, true),
        None,
    );
    assert_eq!(plan.mode, HttpDownloadMode::ResumableStream);
    let tasks = fetch_tasks(&plan.mode, plan.config.tasks_count);
    assert_eq!(tasks, 1);
    let starts = range_starts(&plan.byte_ranges);
    assert_eq!(starts.len(), tasks);
    let (_, image) = ProgressState::new("https://x/y", None, tasks as u8, starts);
    let mut url = String::new();
    let mut content_length = Some(1);
    let mut tasks_count = 0;
    let state =
        ProgressState::load(&image, &mut url, &mut content_length, &mut tasks_count).unwrap();
    assert_eq!((url.as_str(), content_length, tasks_count), ("https://x/y", None, 1));
    let resumed = plan_resume(
        HttpDownloadConfig::default().mark_resumed(),
        String::from("y"),
        content_length,
        tasks_count,
        None,
        &state,
    )
    .unwrap();
    assert_eq!(resumed.mode, HttpDownloadMode::ResumableStream);
    assert_eq!(resumed.byte_ranges, vec![(0, 0)]);
}
