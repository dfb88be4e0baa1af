use compactrs::updater::{
    is_executable_header, location_text, parse_release_info, request_step, split_url, update_paths, w_buf,
    RequestStep,
};
use compactrs::watcher::{
    check_task_input, days_mask_from_checks, decode_tasks, encode_tasks, last_run_text, next_task_id,
    parse_time_field, save_task_entry, schedule_text, unix_to_filetime, WatcherTask, RECORD_SIZE,
};
use compactrs::wof::WofAlgorithm;

fn w(s: &str) -> Vec<u16> {
    s.encode_utf16().chain(std::iter::once(0)).collect()
}

const FEED: &str = r#"{"tag_name":"v1.2.0","assets":[{"name":"readme.txt","browser_download_url":"https://x/readme.txt"},{"name":"compactrs.exe","browser_download_url":"https://github.com/o/r/releases/download/v1.2.0/compactrs.exe"}]}"#;

#[test]
fn release_feed_newer_version() {
    let info = parse_release_info(FEED, "1.1.0").unwrap().unwrap();
    assert_eq!(info.version, "v1.2.0");
    assert_eq!(info.download_url, "https://github.com/o/r/releases/download/v1.2.0/compactrs.exe");
}

#[test]
fn release_feed_same_version_ignores_leading_v() {
    assert!(parse_release_info(FEED, "v1.2.0").unwrap().is_none());
    assert!(parse_release_info(FEED, "1.2.0").unwrap().is_none());
    assert!(parse_release_info(FEED, "vv1.2.0").unwrap().is_none());
}

#[test]
fn release_feed_errors() {
    assert_eq!(parse_release_info(r#"{"message":"rate limited"}"#, "1").unwrap_err(), "API Error");
    assert_eq!(parse_release_info(r#"{"name":"x"}"#, "1").unwrap_err(), "No Tag");
    assert_eq!(parse_release_info(r#"{"tag_name":"v2","assets":[]}"#, "1").unwrap_err(), "No Asset");
}

#[test]
fn urls_split_into_host_and_path() {
    assert_eq!(split_url("https://api.github.com/repos/a/b").unwrap(), ("api.github.com".to_string(), "/repos/a/b".to_string()));
    assert_eq!(split_url("https://example.com").unwrap(), ("example.com".to_string(), "/".to_string()));
    assert_eq!(split_url("http://example.com/x").unwrap_err(), "Bad URL");
}

#[test]
fn location_buffer_is_trimmed() {
    let mut buf = [0u16; 16];
    for (i, u) in "https://h/p".encode_utf16().enumerate() {
        buf[i] = u;
    }
    assert_eq!(location_text(&buf), "https://h/p");
}

#[test]
fn w_buf_terminates_and_truncates() {
    let mut buf = [7u16; 6];
    w_buf("abc", &mut buf);
    assert_eq!(buf, [97, 98, 99, 0, 7, 7]);
    let mut small = [7u16; 3];
    w_buf("abcdef", &mut small);
    assert_eq!(small, [97, 98, 0]);
}

#[test]
fn redirect_steps() {
    assert!(matches!(request_step(0, 200), RequestStep::Ready));
    assert!(matches!(request_step(0, 302), RequestStep::Follow));
    assert!(matches!(request_step(4, 302), RequestStep::Fail("Redirect Loop")));
    assert!(matches!(request_step(0, 404), RequestStep::Fail("HTTP Error")));
}

#[test]
fn downloaded_file_must_be_executable() {
    assert!(is_executable_header(&[0x4D, 0x5A, 0x90]));
    assert!(!is_executable_header(&[0x4D]));
    assert!(!is_executable_header(&[0x50, 0x4B]));
}

#[test]
fn backup_paths_beside_program() {
    let mut exe = [0u16; 300];
    for (i, u) in "C:\\a.exe".encode_utf16().enumerate() {
        exe[i] = u;
    }
    let (tmp, old) = update_paths(&exe).unwrap();
    assert_eq!(String::from_utf16_lossy(&tmp[..14]), "C:\\a.exe.tmp\0\0");
    assert_eq!(String::from_utf16_lossy(&old[..13]), "C:\\a.exe.old\0");
    let long = [0x41u16; 300];
    assert_eq!(update_paths(&long).unwrap_err(), "Path Long");
}

fn sample_task(id: u32) -> WatcherTask {
    let mut t = WatcherTask::new(id, "D:\\Games", WofAlgorithm::Lzx, 0b0000_0101, 23, 5);
    t.last_run_timestamp = 1_700_000_000 + id as u64;
    t._padding = [1, 2, 3, 4];
    t
}

#[test]
fn task_keeps_its_path() {
    let mut t = WatcherTask::new(1, "C:\\Data", WofAlgorithm::Xpress4K, 0x80, 12, 0);
    assert_eq!(t.get_path(), "C:\\Data");
    t.set_path("E:\\Other");
    assert_eq!(t.get_path(), "E:\\Other");
    let long = "x".repeat(400);
    t.set_path(&long);
    assert_eq!(t.get_path().len(), 259);
    assert_eq!(WatcherTask::default().get_path(), "");
}

#[test]
fn task_file_roundtrip() {
    let tasks = vec![sample_task(1), sample_task(7)];
    let bytes = encode_tasks(&tasks);
    assert_eq!(bytes.len(), 2 * RECORD_SIZE);
    assert_eq!(&bytes[0..4], &[1, 0, 0, 0]);
    let back = decode_tasks(&bytes);
    assert_eq!(back.len(), 2);
    for (a, b) in back.iter().zip(tasks.iter()) {
        assert_eq!(a.id, b.id);
        assert_eq!(a.path, b.path);
        assert_eq!(a.algorithm, b.algorithm);
        assert_eq!(a.days_mask, b.days_mask);
        assert_eq!((a.time_hour, a.time_minute), (b.time_hour, b.time_minute));
        assert_eq!(a.last_run_timestamp, b.last_run_timestamp);
        assert_eq!(a._padding, b._padding);
    }
}

#[test]
fn task_file_partial_and_unknown_records() {
    let mut bytes = encode_tasks(&[sample_task(1), sample_task(2)]);
    bytes.truncate(RECORD_SIZE + 10);
    assert_eq!(decode_tasks(&bytes).len(), 1);
    let mut bad = encode_tasks(&[sample_task(1), sample_task(2)]);
    bad[RECORD_SIZE + 524] = 9;
    assert_eq!(decode_tasks(&bad).len(), 1);
    assert_eq!(decode_tasks(&[]).len(), 0);
}

#[test]
fn schedule_texts() {
    let every = WatcherTask::new(1, "x", WofAlgorithm::Lzx, 0x80, 9, 5);
    assert_eq!(schedule_text(&every), w("Every Day at 09:05"));
    let some = WatcherTask::new(1, "x", WofAlgorithm::Lzx, 0b0100_0101, 23, 30);
    assert_eq!(schedule_text(&some), w("Mon, Wed, Sun at 23:30"));
    let none = WatcherTask::new(1, "x", WofAlgorithm::Lzx, 0, 0, 0);
    assert_eq!(schedule_text(&none), w(" at 00:00"));
}

#[test]
fn last_run_texts() {
    assert_eq!(last_run_text(0, Some((2024, 1, 2, 3, 4))), w("Never"));
    assert_eq!(last_run_text(5, None), w("Error"));
    assert_eq!(last_run_text(5, Some((2024, 1, 2, 3, 4))), w("2024-01-02 03:04"));
    let (lo, hi) = unix_to_filetime(0);
    assert_eq!(((hi as u64) << 32) | lo as u64, 116444736000000000);
}

#[test]
fn task_dialog_checks() {
    assert_eq!(days_mask_from_checks(true, &[false; 7]), 0x80);
    assert_eq!(days_mask_from_checks(false, &[true, false, true, false, false, false, true]), 0b0100_0101);
    assert_eq!(days_mask_from_checks(false, &[false; 7]), 0);
    assert_eq!(check_task_input(0, 1, 1, 1).unwrap_err(), "Please select a path.");
    assert_eq!(check_task_input(3, 24, 1, 1).unwrap_err(), "Invalid time.");
    assert_eq!(check_task_input(3, 1, 60, 1).unwrap_err(), "Invalid time.");
    assert_eq!(check_task_input(3, 1, 1, 0).unwrap_err(), "Please select at least one day.");
    assert!(check_task_input(3, 23, 59, 0x80).is_ok());
    assert_eq!(parse_time_field("07"), 7);
    assert_eq!(parse_time_field("+23"), 23);
    assert_eq!(parse_time_field("255"), 255);
    assert_eq!(parse_time_field("256"), 0);
    assert_eq!(parse_time_field("1a"), 0);
    assert_eq!(parse_time_field(""), 0);
    assert_eq!(parse_time_field("-1"), 0);
}

#[test]
fn saving_tasks_adds_or_edits() {
    let mut tasks = vec![sample_task(3), sample_task(9)];
    assert_eq!(next_task_id(&tasks), 10);
    assert_eq!(next_task_id(&[]), 1);
    save_task_entry(&mut tasks, None, "F:\\New", WofAlgorithm::Xpress16K, 0x80, 1, 2);
    assert_eq!(tasks.len(), 3);
    assert_eq!(tasks[2].id, 10);
    assert_eq!(tasks[2].get_path(), "F:\\New");
    save_task_entry(&mut tasks, Some(0), "G:\\Edit", WofAlgorithm::Xpress4K, 1, 3, 4);
    assert_eq!(tasks[0].id, 3);
    assert_eq!(tasks[0].get_path(), "G:\\Edit");
    assert_eq!(tasks[0].algorithm, WofAlgorithm::Xpress4K);
    assert_eq!(tasks[0].last_run_timestamp, 1_700_000_003);
    save_task_entry(&mut tasks, Some(10), "H:\\", WofAlgorithm::Xpress4K, 1, 3, 4);
    assert_eq!(tasks.len(), 3);
}
