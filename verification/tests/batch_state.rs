use compactrs::batch::AppState;
use compactrs::filter::{results_message, RefreshSummary};
use compactrs::handlers::{
    action_from_menu, algorithm_from_menu, next_algorithm, playback_click, toggle_action, PlaybackAction,
    ProcessAllPlan,
};
use compactrs::logger::{format_log_entry, LogEntry, LogLevel};
use compactrs::messages::{UiEffect, UiMessage};
use compactrs::order::compare_on_column;
use compactrs::state::{BatchAction, BatchItem, BatchStatus, FilterColumn, ProcessingState};
use compactrs::window::{compare_items, parse_ipc_payload, theme_from_request, CellText, ForceStopDecision};
use compactrs::state::AppTheme;
use compactrs::wof::{CompressionState, WofAlgorithm};

fn w(s: &str) -> Vec<u16> {
    s.encode_utf16().chain(std::iter::once(0)).collect()
}

fn state_with(paths: &[&str]) -> AppState {
    let mut st = AppState::new(AppTheme::System, false, false, false);
    for p in paths {
        st.add_batch_item(p.to_string());
    }
    st
}

#[test]
fn new_state_is_empty_and_unsorted() {
    let st = AppState::new(AppTheme::System, false, false, false);
    assert_eq!(st.batch_items.len(), 0);
    assert_eq!(st.next_item_id, 1);
    assert_eq!(st.sort_column, -1);
    assert!(st.sort_ascending);
    assert_eq!(st.global_state, ProcessingState::Idle);
}

#[test]
fn new_state_keeps_saved_settings() {
    let st = AppState::new(AppTheme::Dark, true, false, true);
    assert_eq!(st.theme, AppTheme::Dark);
    assert!(st.force_compress);
    assert!(!st.enable_force_stop);
    assert!(st.low_power_mode);
    assert_eq!(st.batch_items.len(), 0);
}

#[test]
fn ids_count_up_from_one() {
    let mut st = AppState::new(AppTheme::System, false, false, false);
    assert_eq!(st.add_batch_item("C:\\a".to_string()), 1);
    assert_eq!(st.add_batch_item("C:\\b".to_string()), 2);
    assert_eq!(st.batch_items[1].path, "C:\\b");
    assert_eq!(st.batch_items[1].path_lower, "c:\\b");
    assert_eq!(st.batch_items[1].algorithm, WofAlgorithm::Xpress8K);
    assert_eq!(st.batch_items[1].action, BatchAction::Compress);
}

#[test]
fn remove_then_find_fails() {
    let mut st = state_with(&["a", "b", "c"]);
    assert!(st.remove_batch_item(2));
    assert!(!st.remove_batch_item(2));
    assert_eq!(st.find_item_index(2), None);
    assert_eq!(st.find_item_index(3), Some(1));
}

#[test]
fn item_setters_touch_only_their_item() {
    let mut st = state_with(&["a", "b"]);
    st.set_item_algorithm(2, WofAlgorithm::Lzx);
    st.set_item_action(1, BatchAction::Decompress);
    st.set_item_algorithm(99, WofAlgorithm::Xpress4K);
    assert_eq!(st.batch_items[0].algorithm, WofAlgorithm::Xpress8K);
    assert_eq!(st.batch_items[1].algorithm, WofAlgorithm::Lzx);
    assert_eq!(st.batch_items[0].action, BatchAction::Decompress);
    if let Some(it) = st.get_batch_item_mut(1) {
        it.logical_size = 77;
    }
    assert_eq!(st.batch_items[0].logical_size, 77);
    assert!(st.get_batch_item_mut(42).is_none());
}

#[test]
fn estimate_cache_reads_back() {
    let mut it = BatchItem::new(5, "x".to_string());
    assert_eq!(it.get_cached_estimate(WofAlgorithm::Lzx), None);
    it.cache_estimate(WofAlgorithm::Lzx, 1234);
    assert_eq!(it.get_cached_estimate(WofAlgorithm::Lzx), Some(1234));
    assert_eq!(it.get_cached_estimate(WofAlgorithm::Xpress4K), None);
}

#[test]
fn processing_state_byte_roundtrip() {
    for s in [ProcessingState::Idle, ProcessingState::Running, ProcessingState::Paused, ProcessingState::Stopped] {
        assert_eq!(ProcessingState::from_u8(s.to_u8()), s);
    }
    assert_eq!(ProcessingState::from_u8(200), ProcessingState::Idle);
}

#[test]
fn filter_and_sort_rows() {
    let mut st = state_with(&["C:\\Zeta", "C:\\alpha", "D:\\Beta"]);
    st.batch_items[0].logical_size = 300;
    st.batch_items[1].logical_size = 100;
    st.batch_items[2].logical_size = 200;
    let s = st.refresh_file_list();
    assert_eq!(st.filtered_items, vec![0, 1, 2]);
    assert_eq!(s, RefreshSummary { is_default_state: true, current_count: 3, total_count: 3 });
    st.search_state.text = "c:".to_string();
    let s = st.refresh_file_list();
    assert_eq!(st.filtered_items, vec![0, 1]);
    assert!(!s.is_default_state);
    st.search_state.text = String::new();
    st.sort_column = 4;
    st.sort_ascending = true;
    st.refresh_file_list();
    assert_eq!(st.filtered_items, vec![1, 2, 0]);
    st.sort_ascending = false;
    st.sort_filtered_items();
    assert_eq!(st.filtered_items, vec![0, 2, 1]);
    st.sort_column = 0;
    st.sort_ascending = true;
    st.sort_filtered_items();
    assert_eq!(st.filtered_items, vec![1, 0, 2]);
}

#[test]
fn sort_keeps_equal_rows_in_order() {
    let mut st = state_with(&["a", "b", "c", "d"]);
    st.batch_items[0].logical_size = 5;
    st.batch_items[1].logical_size = 1;
    st.batch_items[2].logical_size = 5;
    st.batch_items[3].logical_size = 1;
    st.filtered_items = vec![0, 1, 2, 3];
    st.sort_column = 4;
    st.sort_ascending = true;
    st.sort_filtered_items();
    assert_eq!(st.filtered_items, vec![1, 3, 0, 2]);
}

#[test]
fn status_filter_and_glob_search() {
    let mut st = state_with(&["C:\\one", "C:\\two"]);
    st.batch_items[1].status = BatchStatus::Complete;
    st.search_state.filter_column = FilterColumn::Status;
    st.search_state.text = "COMPLETE".to_string();
    st.refresh_file_list();
    assert_eq!(st.filtered_items, vec![1]);
    st.search_state.filter_column = FilterColumn::Path;
    st.search_state.use_regex = true;
    st.search_state.text = "*o".to_string();
    st.refresh_file_list();
    assert_eq!(st.filtered_items, vec![1]);
}

#[test]
fn results_messages() {
    assert_eq!(results_message(RefreshSummary { is_default_state: true, current_count: 0, total_count: 0 }), w("Ready."));
    assert_eq!(
        results_message(RefreshSummary { is_default_state: true, current_count: 2, total_count: 2 }),
        w("Ready. 2 items loaded.")
    );
    assert_eq!(
        results_message(RefreshSummary { is_default_state: false, current_count: 0, total_count: 4 }),
        w("No matching items found.")
    );
    assert_eq!(
        results_message(RefreshSummary { is_default_state: false, current_count: 3, total_count: 4 }),
        w("Found 3 matching items.")
    );
}

#[test]
fn cells_of_a_row() {
    let mut st = state_with(&["C:\\data"]);
    st.batch_items[0].logical_size = 1000;
    st.batch_items[0].disk_size = 595;
    st.batch_items[0].progress = (3, 10);
    st.batch_items[0].final_state = Some(CompressionState::Specific(WofAlgorithm::Lzx));
    st.refresh_file_list();
    assert!(matches!(st.cell_text(0, 0), Some(CellText::Units(u)) if u == w("C:\\data")));
    assert!(matches!(st.cell_text(0, 1), Some(CellText::Units(u)) if u == w("LZX")));
    assert!(matches!(st.cell_text(0, 4), Some(CellText::Size(1000))));
    assert!(matches!(st.cell_text(0, 5), Some(CellText::Units(u)) if u == w("Estimating...")));
    assert!(matches!(st.cell_text(0, 7), Some(CellText::Units(u)) if u == w("40.5%")));
    assert!(matches!(st.cell_text(0, 8), Some(CellText::Units(u)) if u == w("3 / 10")));
    assert!(matches!(st.cell_text(0, 9), Some(CellText::Units(u)) if u == w("Pending")));
    assert!(st.cell_text(1, 0).is_none());
    assert!(st.cell_text(0, 11).is_none());
}

#[test]
fn compare_by_column_and_direction() {
    let mut st = state_with(&["b", "a"]);
    st.sort_column = 0;
    st.sort_ascending = true;
    assert!(compare_items(&st, 1, 2) > 0);
    st.sort_ascending = false;
    assert!(compare_items(&st, 1, 2) < 0);
    assert_eq!(compare_items(&st, 1, 99), 0);
    let a = BatchItem::new(1, "x".to_string());
    let b = BatchItem::new(2, "x".to_string());
    assert_eq!(compare_on_column(0, &a, &b), 0);
}

#[test]
fn ipc_payload_is_parsed() {
    let mut units: Vec<u16> = "C:\\games|lzx|decompress".encode_utf16().collect();
    units.push(0);
    units.push(0);
    let parsed = parse_ipc_payload(&units).unwrap();
    assert_eq!(parsed.0, "C:\\games");
    assert_eq!(parsed.1, WofAlgorithm::Lzx);
    assert_eq!(parsed.2, BatchAction::Decompress);
    let odd: Vec<u16> = "C:\\x|weird|x".encode_utf16().collect();
    let parsed = parse_ipc_payload(&odd).unwrap();
    assert_eq!(parsed.1, WofAlgorithm::Xpress8K);
    assert_eq!(parsed.2, BatchAction::Compress);
    let short: Vec<u16> = "C:\\x|lzx".encode_utf16().collect();
    assert!(parse_ipc_payload(&short).is_none());
}

#[test]
fn progress_and_status_messages() {
    let mut st = state_with(&["a"]);
    match st.process_ui_message(UiMessage::Progress(2, 5), 0) {
        UiEffect::ShowProgress { current, total, text } => {
            assert_eq!((current, total), (2, 5));
            assert_eq!(text, w("Processed 2 / 5"));
        },
        _ => panic!("expected progress"),
    }
    let e = LogEntry { timestamp: 3600, level: LogLevel::Error, message: "bad".to_string() };
    match st.process_ui_message(UiMessage::Log(e), 0) {
        UiEffect::Logged { error_text } => assert_eq!(error_text, Some(w("bad"))),
        _ => panic!("expected log"),
    }
    assert_eq!(st.logs.len(), 1);
}

#[test]
fn finished_message_hands_out_queue() {
    let mut st = state_with(&["a", "b", "c"]);
    st.processing_queue = vec![0, 1, 2];
    match st.process_ui_message(UiMessage::Finished, 2) {
        UiEffect::StartBatch { indices, queued_text } => {
            assert_eq!(indices, vec![0, 1]);
            assert_eq!(queued_text, Some(w("Processing... (1 queued)")));
        },
        _ => panic!("expected batch"),
    }
    assert_eq!(st.processing_queue, vec![2]);
    st.processing_queue.clear();
    st.global_state = ProcessingState::Running;
    assert!(matches!(st.process_ui_message(UiMessage::Finished, 2), UiEffect::RunFinished));
    assert_eq!(st.global_state, ProcessingState::Idle);
}

#[test]
fn log_is_bounded() {
    let mut st = AppState::new(AppTheme::System, false, false, false);
    for i in 0..1005u64 {
        st.push_log(LogEntry { timestamp: i, level: LogLevel::Info, message: String::new() });
    }
    assert_eq!(st.logs.len(), 1000);
    assert_eq!(st.logs[0].timestamp, 5);
}

#[test]
fn log_line_format() {
    let e = LogEntry { timestamp: 3661, level: LogLevel::Warning, message: "disk".to_string() };
    assert_eq!(format_log_entry(&e), w("[01:01:01] [WARN] disk"));
}

#[test]
fn queue_and_pause() {
    let mut st = state_with(&["a", "b", "c"]);
    let now = st.start_processing(vec![0, 1, 2], 2);
    assert_eq!(now, vec![0, 1]);
    assert_eq!(st.processing_queue, vec![2]);
    st.global_state = ProcessingState::Running;
    assert_eq!(st.toggle_pause(), Some(ProcessingState::Paused));
    assert_eq!(st.toggle_pause(), Some(ProcessingState::Running));
    st.global_state = ProcessingState::Idle;
    assert_eq!(st.toggle_pause(), None);
    let all = st.start_processing(vec![0, 1], 0);
    assert_eq!(all, vec![0, 1]);
}

#[test]
fn buttons_follow_state() {
    let mut st = state_with(&["a"]);
    let b = st.button_states(0);
    assert!(b.process_enabled && b.clear_enabled && !b.remove_enabled && !b.pause_enabled);
    st.global_state = ProcessingState::Paused;
    let b = st.button_states(1);
    assert!(!b.process_enabled && b.remove_enabled && b.pause_enabled && b.pause_shows_resume);
    st.global_state = ProcessingState::Running;
    let b = st.button_states(1);
    assert!(!b.remove_enabled && !b.clear_enabled && !b.pause_shows_resume);
}

#[test]
fn process_all_plans() {
    let st = AppState::new(AppTheme::System, false, false, false);
    assert!(matches!(st.plan_process_all(vec![], false), ProcessAllPlan::NoItems));
    let mut st = state_with(&["a", "b"]);
    assert!(matches!(st.plan_process_all(vec![1], false), ProcessAllPlan::Start(v) if v == vec![1]));
    assert!(matches!(st.plan_process_all(vec![], false), ProcessAllPlan::Start(v) if v == vec![0, 1]));
    st.batch_items[0].status = BatchStatus::Complete;
    st.batch_items[1].status = BatchStatus::Complete;
    assert!(matches!(st.plan_process_all(vec![], false), ProcessAllPlan::NothingPending));
    assert!(matches!(st.plan_process_all(vec![], true), ProcessAllPlan::Nothing));
}

#[test]
fn playback_zones() {
    assert_eq!(playback_click(ProcessingState::Idle, 10, 110, true), PlaybackAction::Watch);
    assert_eq!(playback_click(ProcessingState::Idle, 50, 110, true), PlaybackAction::Start);
    assert_eq!(playback_click(ProcessingState::Running, 50, 110, true), PlaybackAction::Pause);
    assert_eq!(playback_click(ProcessingState::Running, 100, 110, true), PlaybackAction::Stop);
}

#[test]
fn algorithm_cycle_and_action_toggle() {
    let mut a = WofAlgorithm::Xpress4K;
    for _ in 0..4 {
        a = next_algorithm(a);
    }
    assert_eq!(a, WofAlgorithm::Xpress4K);
    assert_eq!(toggle_action(toggle_action(BatchAction::Compress)), BatchAction::Compress);
    assert_eq!(toggle_action(BatchAction::Compress), BatchAction::Decompress);
    assert!(algorithm_from_menu(12345).is_none());
    assert!(action_from_menu(12345).is_none());
}

#[test]
fn column_click_toggles_direction() {
    let mut st = AppState::new(AppTheme::System, false, false, false);
    st.on_column_click(4);
    assert_eq!((st.sort_column, st.sort_ascending), (4, true));
    st.on_column_click(4);
    assert_eq!((st.sort_column, st.sort_ascending), (4, false));
    st.on_column_click(2);
    assert_eq!((st.sort_column, st.sort_ascending), (2, true));
}

#[test]
fn adding_paths_skips_duplicates() {
    let mut st = state_with(&["C:\\a"]);
    let added = st.add_new_paths(vec!["C:\\a".to_string(), "C:\\b".to_string(), "C:\\b".to_string()]);
    assert_eq!(added.len(), 1);
    assert_eq!(added[0].1, "C:\\b");
    assert_eq!(st.batch_items.len(), 2);
}

#[test]
fn remove_selected_positions() {
    let mut st = state_with(&["a", "b", "c", "d"]);
    st.remove_selected(vec![3, 1, 9]);
    let paths: Vec<&str> = st.batch_items.iter().map(|i| i.path.as_str()).collect();
    assert_eq!(paths, vec!["a", "c"]);
}

#[test]
fn clear_all_restarts_ids() {
    let mut st = state_with(&["a", "b"]);
    st.clear_all();
    assert_eq!(st.batch_items.len(), 0);
    assert_eq!(st.add_batch_item("z".to_string()), 1);
}

#[test]
fn force_stop_decisions() {
    let mut st = AppState::new(AppTheme::System, false, false, false);
    let name = "locker.exe".to_string();
    assert_eq!(st.force_stop_decision(&name), ForceStopDecision::Ask);
    assert_eq!(st.force_stop_decision(&name), ForceStopDecision::Skip);
    st.force_stop_answered(name.clone(), false);
    assert_eq!(st.active_lock_dialog, None);
    assert_eq!(st.force_stop_decision(&name), ForceStopDecision::Skip);
    st.enable_force_stop = true;
    assert_eq!(st.force_stop_decision(&name), ForceStopDecision::Kill);
}

#[test]
fn theme_requests() {
    assert_eq!(theme_from_request(0, AppTheme::Dark), AppTheme::System);
    assert_eq!(theme_from_request(1, AppTheme::System), AppTheme::Dark);
    assert_eq!(theme_from_request(2, AppTheme::System), AppTheme::Light);
    assert_eq!(theme_from_request(7, AppTheme::Dark), AppTheme::Dark);
}

#[test]
fn external_items_join_once() {
    let mut st = AppState::new(AppTheme::System, false, false, false);
    assert_eq!(st.receive_external_item("C:\\x".to_string(), WofAlgorithm::Lzx, BatchAction::Decompress, true), Some(1));
    assert_eq!(st.receive_external_item("C:\\x".to_string(), WofAlgorithm::Lzx, BatchAction::Decompress, true), None);
    assert_eq!(st.batch_items[0].algorithm, WofAlgorithm::Lzx);
    assert_eq!(st.batch_items[0].action, BatchAction::Decompress);
    let ids = st.add_startup_items(vec![
        ("C:\\y".to_string(), WofAlgorithm::Xpress4K, BatchAction::Compress),
        ("C:\\x".to_string(), WofAlgorithm::Xpress4K, BatchAction::Compress),
    ]);
    assert_eq!(ids, vec![2]);
    assert!(st.ipc_active);
    assert_eq!(st.end_external_burst(), vec![1, 2]);
    assert!(!st.ipc_active);
    assert!(st.pending_ipc_ids.is_empty());
}

#[test]
fn unsorted_list_is_left_alone() {
    let mut st = state_with(&["a", "b"]);
    st.filtered_items = vec![7, 1, 0];
    st.sort_column = -1;
    st.sort_filtered_items();
    assert_eq!(st.filtered_items, vec![7, 1, 0]);
}

#[test]
fn visible_rows_for_lowered_text() {
    let mut st = state_with(&["C:\\Games\\A", "D:\\Work", "C:\\games\\b"]);
    st.search_state.text = "  GAMES ".to_string();
    assert_eq!(st.visible_rows_for(&"games".to_string()), vec![0, 2]);
    assert_eq!(st.visible_rows_for(&"work".to_string()), vec![1]);
    st.search_state.text = "\u{3000}".to_string();
    assert_eq!(st.visible_rows_for(&String::new()), vec![0, 1, 2]);
}

#[test]
fn startup_items_skip_repeated_paths() {
    let mut st = state_with(&["C:\\old"]);
    let ids = st.add_startup_items(vec![
        ("C:\\a".to_string(), WofAlgorithm::Lzx, BatchAction::Compress),
        ("C:\\old".to_string(), WofAlgorithm::Lzx, BatchAction::Compress),
        ("C:\\b".to_string(), WofAlgorithm::Xpress4K, BatchAction::Decompress),
        ("C:\\a".to_string(), WofAlgorithm::Xpress16K, BatchAction::Decompress),
    ]);
    assert_eq!(ids, vec![2, 3]);
    assert_eq!(st.batch_items.len(), 3);
    assert_eq!(st.batch_items[1].path, "C:\\a");
    assert_eq!(st.batch_items[1].algorithm, WofAlgorithm::Lzx);
    assert_eq!(st.batch_items[2].path, "C:\\b");
    assert_eq!(st.batch_items[2].action, BatchAction::Decompress);
    assert_eq!(st.next_item_id, 4);
    assert_eq!(st.pending_ipc_ids, vec![2, 3]);
}

#[test]
fn global_algorithm_requests_missing_estimates() {
    let mut st = state_with(&["a", "b", "c"]);
    st.batch_items[1].cache_estimate(WofAlgorithm::Lzx, 42);
    let req = st.apply_global_algorithm(Some(WofAlgorithm::Lzx));
    assert_eq!(req, vec![(1, "a".to_string(), WofAlgorithm::Lzx), (3, "c".to_string(), WofAlgorithm::Lzx)]);
    assert_eq!(st.batch_items[1].estimated_size, 42);
    assert_eq!(st.batch_items[0].estimated_size, 0);
    st.batch_items[2].algorithm = WofAlgorithm::Xpress4K;
    let req = st.apply_global_algorithm(None);
    assert_eq!(req.len(), 3);
    assert_eq!(req[2], (3, "c".to_string(), WofAlgorithm::Xpress4K));
}

#[test]
fn row_of_changed_item_is_its_list_row() {
    let mut st = state_with(&["a", "b"]);
    st.filtered_items = vec![1, 0];
    match st.process_ui_message(UiMessage::RowProgress(1, 1, 2, 0), 0) {
        UiEffect::RowChanged { row, .. } => assert_eq!(row, Some(1)),
        _ => panic!("row changed"),
    }
    match st.process_ui_message(UiMessage::UpdateEstimate(2, WofAlgorithm::Lzx, 9), 0) {
        UiEffect::EstimateChanged { row } => assert_eq!(row, Some(0)),
        _ => panic!("estimate changed"),
    }
}
