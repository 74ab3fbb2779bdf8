use bytefetch::progress_state::{
    NoOpProgressState, ProgressState, ProgressUpdater, StateError, STATE_EXTENSION,
};

fn apply(image: &mut Vec<u8>, position: u64, bytes: &[u8]) {
    let at = position as usize;
    image[at..at + bytes.len()].copy_from_slice(bytes);
}

fn load(image: &[u8]) -> Result<(ProgressState, String, Option<u64>, u8), StateError> {
    let mut url = String::new();
    let mut content_length = None;
    let mut tasks_count = 0;
    let state = ProgressState::load(image, &mut url, &mut content_length, &mut tasks_count)?;
    Ok((state, url, content_length, tasks_count))
}

fn offsets_of(state: &ProgressState) -> Vec<u64> {
    (0..state.segments()).map(|index| state.get_progress(index)).collect()
}

#[test]
fn state_file_layout() {
    let (state, image) = ProgressState::new("ab", Some(0x0102030405060708), 2, vec![1, 0x1000]);
    let expected: Vec<u8> = vec![
        2, 0, 0, 0, b'a', b'b', 1, 8, 7, 6, 5, 4, 3, 2, 1, 2, 1, 0, 0, 0, 0, 0, 0, 0, 0, 0x10, 0,
        0, 0, 0, 0, 0,
    ];
    assert_eq!(image, expected);
    assert_eq!(state.progress_offset(), 16);
    let (state, image) = ProgressState::new("ab", None, 0, vec![]);
    assert_eq!(image, vec![2, 0, 0, 0, b'a', b'b', 0, 0]);
    assert_eq!(state.progress_offset(), 8);
    assert_eq!(STATE_EXTENSION, ".bfstate");
}

#[test]
fn state_file_round_trip() {
    let (mut state, mut image) =
        ProgressState::new("https://x/y", Some(1000), 4, vec![0, 250, 500, 750]);
    let write = state.update_progress(1, 100).unwrap();
    assert_eq!(write.position, state.progress_offset() + 8);
    assert_eq!(write.bytes, 350u64.to_le_bytes().to_vec());
    apply(&mut image, write.position, &write.bytes);
    let (loaded, url, content_length, tasks_count) = load(&image).unwrap();
    assert_eq!(url, "https://x/y");
    assert_eq!(content_length, Some(1000));
    assert_eq!(tasks_count, 4);
    assert_eq!(offsets_of(&loaded), vec![0, 350, 500, 750]);
    assert_eq!(offsets_of(&state), vec![0, 350, 500, 750]);
    assert_eq!(loaded.progress_offset(), state.progress_offset());
    assert_eq!(state.progress_offset(), 4 + 11 + 9 + 1);
}

#[test]
fn create_then_load_recovers_everything() {
    let cases: Vec<(&str, Option<u64>, Vec<u64>)> = vec![
        ("", None, vec![]),
        ("https://example.org/a?b=c", Some(u64::MAX), vec![0, u64::MAX, 17]),
        ("http://\u{e9}\u{4e2d}\u{1f600}/", None, vec![5]),
        ("u", Some(0), (0..255).collect()),
    ];
    for (url, content_length, offsets) in cases {
        let tasks = offsets.len() as u8;
        let (state, image) = ProgressState::new(url, content_length, tasks, offsets.clone());
        let (loaded, loaded_url, loaded_length, loaded_tasks) = load(&image).unwrap();
        assert_eq!(loaded_url, url);
        assert_eq!(loaded_length, content_length);
        assert_eq!(loaded_tasks, tasks);
        assert_eq!(offsets_of(&loaded), offsets);
        assert_eq!(loaded.progress_offset(), state.progress_offset());
    }
}

#[test]
fn update_progress_by_zero_changes_nothing() {
    let (mut state, image) = ProgressState::new("https://x/y", Some(1000), 4, vec![0, 250, 500, 750]);
    let write = state.update_progress(2, 0).unwrap();
    assert_eq!(offsets_of(&state), vec![0, 250, 500, 750]);
    let mut patched = image.clone();
    apply(&mut patched, write.position, &write.bytes);
    assert_eq!(patched, image);
}

#[test]
fn update_progress_moves_one_frontier() {
    let (mut state, _) = ProgressState::new("u", None, 3, vec![10, 20, 30]);
    let first = state.update_progress(0, 5).unwrap();
    let second = state.update_progress(0, 7).unwrap();
    let third = state.update_progress(2, 1).unwrap();
    assert_eq!(offsets_of(&state), vec![22, 20, 31]);
    assert_eq!(first.position, 7);
    assert_eq!(first.bytes, 15u64.to_le_bytes().to_vec());
    assert_eq!(second.bytes, 22u64.to_le_bytes().to_vec());
    assert_eq!(third.position, 7 + 16);
}

#[test]
fn no_op_state_asks_for_no_write() {
    let mut state = NoOpProgressState;
    assert!(state.update_progress(0, 100).is_none());
    assert!(state.update_progress(usize::MAX, u64::MAX).is_none());
}

#[test]
fn load_reports_a_truncated_file() {
    let (_, image) = ProgressState::new("https://x/y", Some(1000), 4, vec![0, 250, 500, 750]);
    for length in 0..image.len() {
        assert_eq!(load(&image[..length]).unwrap_err(), StateError::Truncated);
    }
    assert!(load(&image).is_ok());
}

#[test]
fn load_reports_a_url_that_is_no_text() {
    let image: Vec<u8> = vec![2, 0, 0, 0, 0xff, 0xfe, 0, 0];
    assert_eq!(load(&image).unwrap_err(), StateError::InvalidUrl);
    let truncated_behind_bad_url: Vec<u8> = vec![1, 0, 0, 0, 0x80];
    assert_eq!(load(&truncated_behind_bad_url).unwrap_err(), StateError::InvalidUrl);
}

#[test]
fn load_ignores_what_follows_the_offsets() {
    let (_, mut image) = ProgressState::new("u", Some(9), 1, vec![3]);
    image.extend_from_slice(&[1, 2, 3]);
    let (state, url, content_length, tasks) = load(&image).unwrap();
    assert_eq!((url.as_str(), content_length, tasks), ("u", Some(9), 1));
    assert_eq!(offsets_of(&state), vec![3]);
}

#[test]
fn load_takes_any_flag_but_one_as_no_length() {
    let image: Vec<u8> = vec![1, 0, 0, 0, b'u', 7, 1, 9, 0, 0, 0, 0, 0, 0, 0];
    let (state, url, content_length, tasks) = load(&image).unwrap();
    assert_eq!((url.as_str(), content_length, tasks), ("u", None, 1));
    assert_eq!(offsets_of(&state), vec![9]);
}

#[test]
fn load_hands_out_the_fields_read_before_a_failure() {
    let (_, image) = ProgressState::new("https://x/y", Some(1000), 4, vec![0, 250, 500, 750]);
    let mut url = String::from("old");
    let mut content_length = Some(1);
    let mut tasks_count = 9;
    let cut = &image[..image.len() - 1];
    assert!(ProgressState::load(cut, &mut url, &mut content_length, &mut tasks_count).is_err());
    assert_eq!(url, "https://x/y");
    assert_eq!(content_length, Some(1000));
    assert_eq!(tasks_count, 4);
    let mut url = String::from("old");
    let mut content_length = Some(1);
    let mut tasks_count = 9;
    let cut = &image[..17];
    assert!(ProgressState::load(cut, &mut url, &mut content_length, &mut tasks_count).is_err());
    assert_eq!(url, "https://x/y");
    assert_eq!(content_length, Some(1));
    assert_eq!(tasks_count, 9);
}
