use compactrs::window::{cancel_label, force_stop_tick, lock_prompt_text, FORCE_STOP_SECONDS};
use compactrs::about::{command_url, link_url, version_text, GITHUB_URL, LICENSE_URL};
use compactrs::messages::UiMessage;
use compactrs::startup::{CancelEffect, ItemMetrics, RunUpdate, StartupRun};
use compactrs::state::ProcessingState;
use compactrs::wof::CompressionState;

fn w(s: &str) -> Vec<u16> {
    s.encode_utf16().chain(std::iter::once(0)).collect()
}

#[test]
fn metrics_replace_and_update() {
    let mut m = ItemMetrics::new();
    m.record_scan(1, 100, 80);
    m.record_scan(2, 50, 50);
    m.record_scan(1, 120, 90);
    assert_eq!(m.entries, vec![(1, 120, 90), (2, 50, 50)]);
    m.record_disk(2, 20);
    m.record_disk(7, 5);
    assert_eq!(m.entries, vec![(1, 120, 90), (2, 50, 20)]);
    assert_eq!(m.totals(), Some((170, 110)));
}

#[test]
fn metrics_totals_overflow() {
    let mut m = ItemMetrics::new();
    m.record_scan(1, u64::MAX, 1);
    m.record_scan(2, 1, 1);
    assert_eq!(m.totals(), None);
    assert_eq!(ItemMetrics::new().totals(), Some((0, 0)));
}

#[test]
fn run_messages() {
    let mut run = StartupRun::new();
    match run.on_message(UiMessage::ScanProgress(3, 400, 300, 12), 0, 0) {
        RunUpdate::Sizes { status: Some(t) } => assert_eq!(t, w("Scanning... 12 files")),
        _ => panic!("scan progress"),
    }
    match run.on_message(UiMessage::RowFinished(3, 150, 12, CompressionState::Mixed), 0, 0) {
        RunUpdate::Sizes { status: None } => {},
        _ => panic!("row finished"),
    }
    assert_eq!(run.metrics.entries, vec![(3, 400, 150)]);
    match run.on_message(UiMessage::Progress(4, 10), 0, 0) {
        RunUpdate::Progress { current, total, status } => {
            assert_eq!((current, total), (4, 10));
            assert_eq!(status, w("Processing 4 / 10 files"));
        },
        _ => panic!("progress"),
    }
    match run.on_message(UiMessage::StatusText(w("hi")), 0, 0) {
        RunUpdate::Status(t) => assert_eq!(t, w("hi")),
        _ => panic!("status"),
    }
    match run.on_message(UiMessage::Finished, 7, 42) {
        RunUpdate::Finished { status } => assert_eq!(status, w("Finished in 7s (42 files)")),
        _ => panic!("finished"),
    }
    assert_eq!(run.state, ProcessingState::Idle);
    assert!(matches!(run.on_message(UiMessage::BatchItemProgress(3, 1, 2), 0, 0), RunUpdate::Nothing));
}

#[test]
fn cancel_stops_then_closes() {
    let mut run = StartupRun::new();
    assert!(matches!(run.on_cancel(), CancelEffect::Stop));
    assert_eq!(run.state, ProcessingState::Stopped);
    assert!(matches!(run.on_cancel(), CancelEffect::Close));
}

#[test]
fn about_links_and_version() {
    assert_eq!(link_url(0), Some(GITHUB_URL));
    assert_eq!(link_url(1), Some(LICENSE_URL));
    assert_eq!(link_url(2), None);
    assert_eq!(command_url(1001), Some(GITHUB_URL));
    assert_eq!(command_url(1002), Some(LICENSE_URL));
    assert_eq!(command_url(1), None);
    assert_eq!(version_text("1.2.3"), "Version 1.2.3");
}

#[test]
fn force_stop_countdown() {
    assert_eq!(FORCE_STOP_SECONDS, 5);
    assert_eq!(cancel_label(5), w("Cancel (5)"));
    let (left, text, cancel) = force_stop_tick(5);
    assert_eq!((left, cancel), (4, false));
    assert_eq!(text, Some(w("Cancel (4)")));
    let (left, text, cancel) = force_stop_tick(1);
    assert_eq!((left, cancel), (0, true));
    assert_eq!(text, Some(w("Cancel (0)")));
    assert_eq!(force_stop_tick(0), (0, None, false));
}

#[test]
fn lock_prompt_names_the_process() {
    assert_eq!(lock_prompt_text("game.exe"), w("Process 'game.exe' is locking this file.\nForce Stop and try again?"));
}
