use bytefetch::fetch::{on_fetch_event, FetchDecision, FetchEvent};
use bytefetch::manager::{terminal_event, SpeedMonitor, TerminalEvent, IDLE_TICKS_BEFORE_RESET};
use bytefetch::status::{DownloadHandle, Error, Status};
use std::sync::Arc;

fn io_error(text: &str) -> Error {
    Error::from(std::io::Error::new(std::io::ErrorKind::Other, text.to_string()))
}

#[test]
fn handle_starts_pending() {
    let handle = DownloadHandle::new();
    assert!(matches!(handle.status(), Status::Pending));
    assert!(matches!(handle.raw_status(), Status::Pending));
}

#[test]
fn a_clean_download_completes() {
    let mut handle = DownloadHandle::new();
    handle.mark_downloading();
    assert!(matches!(handle.status(), Status::Downloading));
    assert!(matches!(handle.raw_status(), Status::Downloading));
    handle.mark_finished();
    assert!(matches!(handle.status(), Status::Completed));
    assert!(matches!(handle.raw_status(), Status::Downloading));
}

#[test]
fn the_first_failure_wins() {
    let mut handle = DownloadHandle::new();
    handle.mark_downloading();
    assert!(handle.mark_failed(io_error("disk full")));
    assert!(matches!(handle.status(), Status::Downloading));
    assert!(!handle.mark_canceled());
    assert!(!handle.mark_failed(Error::Timeout));
    match handle.raw_status() {
        Status::Failed(Error::Io(cause)) => assert_eq!(cause.to_string(), "disk full"),
        other => panic!("unexpected status {:?}", other),
    }
    handle.mark_finished();
    match handle.status() {
        Status::Failed(Error::Io(cause)) => assert_eq!(cause.to_string(), "disk full"),
        other => panic!("unexpected status {:?}", other),
    }
}

#[test]
fn cancel_is_terminal_and_repeating_it_changes_nothing() {
    let mut handle = DownloadHandle::new();
    handle.mark_downloading();
    assert!(handle.mark_canceled());
    assert!(!handle.mark_canceled());
    assert!(!handle.mark_failed(Error::Timeout));
    handle.mark_finished();
    assert!(matches!(handle.status(), Status::Canceled));
}

#[test]
fn reports_before_the_start_are_dropped() {
    let mut handle = DownloadHandle::new();
    assert!(!handle.mark_failed(Error::Timeout));
    assert!(!handle.update_if_downloading(Status::Canceled));
    assert!(matches!(handle.raw_status(), Status::Pending));
    handle.mark_finished();
    assert!(matches!(handle.status(), Status::Pending));
}

#[test]
fn cloned_errors_share_their_cause() {
    let cause = Arc::new(std::io::Error::new(std::io::ErrorKind::NotFound, "gone"));
    let error = Error::Io(Arc::clone(&cause));
    let copy = error.clone();
    match (&error, &copy) {
        (Error::Io(first), Error::Io(second)) => {
            assert!(Arc::ptr_eq(first, second));
            assert!(Arc::ptr_eq(first, &cause));
        },
        _ => panic!("the clone changed the variant"),
    }
    assert!(matches!(Error::Timeout.clone(), Error::Timeout));
    let status = Status::Failed(error);
    assert!(matches!(status.clone(), Status::Failed(Error::Io(_))));
    assert!(matches!(Status::Completed.clone(), Status::Completed));
}

#[test]
fn io_errors_become_io_failures() {
    assert!(matches!(io_error("x"), Error::Io(_)));
}

#[test]
fn fetch_events_decide_the_task() {
    let mut handle = DownloadHandle::new();
    handle.mark_downloading();
    assert_eq!(
        on_fetch_event(&mut handle, FetchEvent::Chunk),
        FetchDecision { keep_reading: true, fire_cancel: false }
    );
    assert_eq!(
        on_fetch_event(&mut handle, FetchEvent::EndOfBody),
        FetchDecision { keep_reading: false, fire_cancel: false }
    );
    assert!(matches!(handle.raw_status(), Status::Downloading));
    assert_eq!(
        on_fetch_event(&mut handle, FetchEvent::IdleTimeout),
        FetchDecision { keep_reading: false, fire_cancel: true }
    );
    assert!(matches!(handle.raw_status(), Status::Failed(Error::Timeout)));
    assert_eq!(
        on_fetch_event(&mut handle, FetchEvent::Canceled),
        FetchDecision { keep_reading: false, fire_cancel: false }
    );
    assert_eq!(
        on_fetch_event(&mut handle, FetchEvent::BodyFailed(io_error("late"))),
        FetchDecision { keep_reading: false, fire_cancel: false }
    );
    assert!(matches!(handle.raw_status(), Status::Failed(Error::Timeout)));
}

#[test]
fn fetch_failures_are_reported() {
    let mut handle = DownloadHandle::new();
    handle.mark_downloading();
    assert_eq!(
        on_fetch_event(&mut handle, FetchEvent::SendFailed(io_error("refused"))),
        FetchDecision { keep_reading: false, fire_cancel: true }
    );
    assert!(matches!(handle.raw_status(), Status::Failed(Error::Io(_))));
    let mut handle = DownloadHandle::new();
    handle.mark_downloading();
    assert_eq!(
        on_fetch_event(&mut handle, FetchEvent::Canceled),
        FetchDecision { keep_reading: false, fire_cancel: true }
    );
    assert!(matches!(handle.raw_status(), Status::Canceled));
    let mut handle = DownloadHandle::new();
    handle.mark_downloading();
    assert_eq!(
        on_fetch_event(&mut handle, FetchEvent::BodyFailed(io_error("reset"))),
        FetchDecision { keep_reading: false, fire_cancel: true }
    );
    assert!(matches!(handle.raw_status(), Status::Failed(Error::Io(_))));
}

#[test]
fn terminal_events_follow_the_final_status() {
    assert!(matches!(terminal_event(Status::Completed), Some(TerminalEvent::Completed)));
    assert!(matches!(terminal_event(Status::Canceled), Some(TerminalEvent::Canceled)));
    assert!(matches!(
        terminal_event(Status::Failed(Error::Timeout)),
        Some(TerminalEvent::Failed(Error::Timeout))
    ));
    assert!(terminal_event(Status::Pending).is_none());
    assert!(terminal_event(Status::Downloading).is_none());
}

#[test]
fn speed_monitor_reports_the_last_two_deltas() {
    let mut monitor = SpeedMonitor::new(1000);
    assert_eq!(monitor.last(), 1000);
    let tick = monitor.tick(1500);
    assert_eq!((tick.downloaded, tick.instant_speed, tick.last_instant_speed), (1500, 500, 0));
    assert!(!tick.reset);
    let tick = monitor.tick(1700);
    assert_eq!((tick.downloaded, tick.instant_speed, tick.last_instant_speed), (1700, 200, 500));
    assert_eq!(monitor.last(), 1700);
    assert_eq!(monitor.final_speed(1750), 50);
}

#[test]
fn speed_monitor_resets_at_the_third_idle_tick() {
    assert_eq!(IDLE_TICKS_BEFORE_RESET, 3);
    let mut monitor = SpeedMonitor::new(0);
    assert!(!monitor.tick(10).reset);
    assert!(!monitor.tick(10).reset);
    assert!(!monitor.tick(10).reset);
    assert!(!monitor.tick(10).reset);
    assert!(monitor.tick(10).reset);
    assert!(!monitor.tick(10).reset);
    assert!(!monitor.tick(11).reset);
    for _ in 0..600 {
        monitor.tick(11);
    }
    assert!(!monitor.tick(11).reset);
    assert!(!monitor.tick(12).reset);
    assert!(!monitor.tick(12).reset);
    assert!(!monitor.tick(12).reset);
    assert!(!monitor.tick(12).reset);
    assert!(monitor.tick(12).reset);
}

#[test]
fn transport_errors_become_network_failures() {
    let cause = reqwest::Client::new().get("not a url").build().unwrap_err();
    let text = cause.to_string();
    match Error::from(cause) {
        Error::Network(kept) => assert_eq!(kept.to_string(), text),
        other => panic!("unexpected error {:?}", other),
    }
}
