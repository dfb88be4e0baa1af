use compactrs::settings::{
    extension_text, fill_extension_buffer, get_search_targets, legacy_status_of, legacy_status_texts,
    legacy_update_click, log_checks_from_mask, log_mask_from_checks, settings_matching, thread_limit_label, parse_concurrent_limit, search_list_height, search_settings,
    tab_of_command, theme_from_combo, theme_from_radio, theme_request_value, LegacyButtonAction, LegacyUpdateStatus,
    UpdateFlow, UpdateRequest, UpdateStatus,
};
use compactrs::state::{AppTheme, BatchAction, BatchItem};
use compactrs::summary::{accuracy_sums, size_totals_of, summary_label};
use compactrs::updater::UpdateInfo;
use compactrs::window::theme_from_request;
use compactrs::wof::WofAlgorithm;

fn w(s: &str) -> Vec<u16> {
    s.encode_utf16().chain(std::iter::once(0)).collect()
}

fn titles(q: &str) -> Option<Vec<&'static str>> {
    search_settings(q).map(|v| v.iter().map(|t| t.title).collect())
}

#[test]
fn settings_table() {
    let t = get_search_targets();
    assert_eq!(t.len(), 16);
    assert_eq!(t[0].title, "Force Kill Processes");
    assert_eq!(t[15].tab_idx, 5);
}

#[test]
fn settings_search_matches_titles_and_keywords() {
    assert_eq!(titles(""), None);
    assert_eq!(titles("   "), None);
    assert_eq!(titles("  THEME "), Some(vec!["Application Theme"]));
    assert_eq!(titles("zzzz"), Some(vec![]));
    assert_eq!(titles("kill"), Some(vec!["Force Kill Processes"]));
    let dark = titles("dark mode").unwrap();
    assert!(dark.contains(&"Application Theme"));
    assert!(dark.contains(&"Efficiency Mode"));
}

#[test]
fn settings_small_rules() {
    assert_eq!(search_list_height(20, 3), 64);
    assert_eq!(search_list_height(20, 16), 200);
    assert_eq!(tab_of_command(2103), Some(3));
    assert_eq!(tab_of_command(2106), None);
    assert_eq!(theme_from_combo(1), AppTheme::Dark);
    assert_eq!(theme_from_combo(-1), AppTheme::System);
    assert_eq!(theme_from_radio(2004), Some(AppTheme::Light));
    assert_eq!(theme_from_radio(2005), None);
    assert_eq!(log_mask_from_checks(true, false, true, true), 13);
}

#[test]
fn theme_travels_to_the_main_window_unchanged() {
    for t in [AppTheme::System, AppTheme::Dark, AppTheme::Light] {
        assert_eq!(theme_from_request(theme_request_value(t), AppTheme::Dark), t);
        assert_eq!(theme_from_request(theme_request_value(t), AppTheme::Light), t);
    }
}

#[test]
fn concurrency_field() {
    assert_eq!(parse_concurrent_limit("", 7), 0);
    assert_eq!(parse_concurrent_limit("12 files", 7), 12);
    assert_eq!(parse_concurrent_limit("x12", 7), 7);
    assert_eq!(parse_concurrent_limit("4294967295", 7), 4294967295);
    assert_eq!(parse_concurrent_limit("4294967296", 7), 7);
}

fn info() -> UpdateInfo {
    UpdateInfo { version: "v2.0".to_string(), download_url: "https://h/a.exe".to_string() }
}

#[test]
fn update_button_flow() {
    let mut f = UpdateFlow::new();
    let (req, texts) = f.on_button();
    assert!(matches!(req, UpdateRequest::Check));
    assert_eq!(f.status, UpdateStatus::Checking);
    assert_eq!(texts.label, "Checking...");
    assert_eq!(texts.button, None);
    assert!(!texts.button_enabled);
    let t = f.on_result(Ok(Some(info())));
    assert_eq!(f.status, UpdateStatus::Idle);
    assert_eq!(t.label, "Latest: v2.0");
    assert_eq!(t.button.as_deref(), Some("Update Now"));
    let (req, texts) = f.on_button();
    assert!(matches!(req, UpdateRequest::Download(u) if u == "https://h/a.exe"));
    assert_eq!(f.status, UpdateStatus::Updating);
    assert_eq!(texts.button.as_deref(), Some("Updating..."));
    let t = f.on_result(Err("No Tag"));
    assert_eq!(t.label, "Error: No Tag");
    assert_eq!(t.button.as_deref(), Some("Retry Check"));
    assert!(f.pending.is_none());
    let (_, texts) = f.on_button();
    assert_eq!(texts.button, None);
    let t = f.on_result(Ok(None));
    assert_eq!(t.label, "You have the latest version.");
}

#[test]
fn first_form_update_flow() {
    let s = legacy_status_of(Ok(Some(info())));
    let (b, l) = legacy_status_texts(&s).unwrap();
    assert_eq!(b, "Download and Restart");
    assert_eq!(l, "New version v2.0 available!");
    assert!(matches!(legacy_update_click(&s), (LegacyButtonAction::Download(u), false) if u == "https://h/a.exe"));
    assert!(matches!(legacy_update_click(&LegacyUpdateStatus::Checking), (LegacyButtonAction::Ignore, false)));
    assert!(matches!(legacy_update_click(&LegacyUpdateStatus::Idle), (LegacyButtonAction::StartCheck, true)));
    let e = legacy_status_of(Err("HTTP Error"));
    assert_eq!(legacy_status_texts(&e).unwrap().1, "Error: HTTP Error");
    assert!(legacy_status_texts(&LegacyUpdateStatus::Idle).is_none());
}

#[test]
fn extension_field_buffer() {
    let buf = fill_extension_buffer("zip,rar");
    assert_eq!(buf[0], 'z' as u16);
    assert_eq!(buf[7], 0);
    assert_eq!(extension_text(&buf), "zip,rar");
    let long = "e".repeat(600);
    let buf = fill_extension_buffer(&long);
    assert_eq!(buf[510], 'e' as u16);
    assert_eq!(buf[511], 0);
    assert_eq!(extension_text(&buf).len(), 511);
}

#[test]
fn accuracy_and_summary_totals() {
    let mut a = BatchItem::new(1, "a".to_string());
    a.estimated_size = 50;
    a.disk_size = 40;
    a.logical_size = 100;
    let mut b = BatchItem::new(2, "b".to_string());
    b.estimated_size = 10;
    b.disk_size = 100;
    b.logical_size = 100;
    assert_eq!(accuracy_sums(&[a, b]), (50, 40));
    assert_eq!(size_totals_of(&[(10, 5), (20, 7)]), (30, 12));
    let label = summary_label(Some((WofAlgorithm::Lzx, BatchAction::Compress)), &w("30 bytes"), &w("12 bytes"), &w("60.0%"));
    assert_eq!(label, w("[LZX]  Logical: 30 bytes  |  On Disk: 12 bytes  |  Saved: 60.0%"));
    let label = summary_label(None, &w("1"), &w("2"), &w("-"));
    assert_eq!(label, w("[XPRESS8K]  Logical: 1  |  On Disk: 2  |  Saved: -"));
    let label = summary_label(Some((WofAlgorithm::Lzx, BatchAction::Decompress)), &w("1"), &w("2"), &w("-"));
    assert_eq!(label, w("[Decompress]  Logical: 1  |  On Disk: 2  |  Saved: -"));
}

#[test]
fn settings_search_on_lowered_text() {
    let found: Vec<&str> = settings_matching("\u{3000}theme\u{a0}").unwrap().iter().map(|t| t.title).collect();
    assert_eq!(found, vec!["Application Theme"]);
    assert!(settings_matching(" \t\u{2003}").is_none());
    assert_eq!(settings_matching("zzzz").unwrap().len(), 0);
}

#[test]
fn log_checks_and_thread_label() {
    assert_eq!(log_checks_from_mask(0b1010), (false, true, false, true));
    assert_eq!(log_checks_from_mask(log_mask_from_checks(true, false, true, false)), (true, false, true, false));
    let (n, text) = thread_limit_label(0, 12);
    assert_eq!(n, 12);
    assert_eq!(text, w("Maximum worker threads (Current: 12)"));
    let (n, text) = thread_limit_label(3, 12);
    assert_eq!(n, 3);
    assert_eq!(text, w("Maximum worker threads (Current: 3)"));
}
