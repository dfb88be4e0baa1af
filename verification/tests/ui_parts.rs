use compactrs::builder::{ControlBuilder, WS_CHILD, WS_TABSTOP, WS_VISIBLE};
use compactrs::components::{
    column_def, header_sort_format, path_column_width, ActionPanel, ActionPanelHandles, ActionPanelIds, FileListView,
    HeaderPanel, HeaderPanelHandles, HeaderPanelIds, SearchPanel, SearchPanelHandles, SearchPanelIds, StatusBar,
    StatusBarIds, centered_origin, empty_label_visible, panel_theme_value,
};
use compactrs::console::{display_text, ConsoleLog};
use compactrs::editing::{ctrl_backspace_plan, BackspacePlan};
use compactrs::input::{forwards_to_parent, global_shortcut_effect, is_edit_class, key_is_down, resolve_key_action, InputAction, ShortcutEffect, WM_KEYDOWN};
use compactrs::layout::{taskbar_flag, window_origin, DeclarativeContext, TaskbarState, WindowAlignment};
use compactrs::logger::{LogEntry, LogLevel};
use compactrs::theme::{
    classify_child, dark_from_registry, preferred_app_mode, standard_color_answer, theme_plan, tier_to_color,
    ColorAnswer, ControlType, RatioTier, COLOR_DARK_BG, COLOR_DARK_TEXT,
};
use compactrs::wrappers::{split_words, trackbar_range_lparam, Button, ComboBox, Label, ListView, ProgressBar, Trackbar};

fn w(s: &str) -> Vec<u16> {
    s.encode_utf16().chain(std::iter::once(0)).collect()
}

#[test]
fn builder_defaults_and_setters() {
    let b = ControlBuilder::new(5, 7);
    assert_eq!(b.text, vec![0]);
    assert_eq!(b.class_name, w("BUTTON"));
    assert_eq!(b.style, WS_VISIBLE | WS_CHILD);
    assert_eq!((b.x, b.y, b.w, b.h), (0, 0, 100, 25));
    let b = b.text("Go").pos(3, 4).size(50, 20).style(0x100).dark_mode(true).font(9).checked(true);
    assert_eq!(b.text, w("Go"));
    assert_eq!((b.x, b.y, b.w, b.h), (3, 4, 50, 20));
    assert_eq!(b.style, WS_VISIBLE | WS_CHILD | 0x100);
    assert!(b.is_dark && b.checked);
    assert_eq!(b.custom_font, Some(9));
    assert_eq!((b.parent, b.id), (5, 7));
}

#[test]
fn builder_presets_and_detected_kinds() {
    assert_eq!(ControlBuilder::new(0, 1).button().detect_control_type(), ControlType::Button);
    assert_eq!(ControlBuilder::new(0, 1).groupbox().detect_control_type(), ControlType::GroupBox);
    // The check-box flags overlap the group-box mask, so a check box is taken for a group box.
    assert_eq!(ControlBuilder::new(0, 1).checkbox().detect_control_type(), ControlType::GroupBox);
    assert_eq!(ControlBuilder::new(0, 1).label(true).detect_control_type(), ControlType::GroupBox);
    assert_eq!(ControlBuilder::new(0, 1).combobox().detect_control_type(), ControlType::ComboBox);
    assert_eq!(ControlBuilder::new(0, 1).trackbar().detect_control_type(), ControlType::Trackbar);
    assert_eq!(ControlBuilder::new(0, 1).edit().detect_control_type(), ControlType::Edit);
    assert_eq!(ControlBuilder::new(0, 1).listview().detect_control_type(), ControlType::List);
    let r = ControlBuilder::new(0, 1).radio();
    assert_eq!(r.style, WS_VISIBLE | WS_CHILD | 9 | WS_TABSTOP);
    let (style, shown) = r.creation_style();
    assert_eq!(style, WS_CHILD | 9 | WS_TABSTOP);
    assert!(shown);
    let tw = ControlBuilder::new(0, 1).text_w(&[0x25B6, 0]);
    assert_eq!(tw.text, vec![0x25B6, 0]);
}

#[test]
fn theme_choices() {
    let p = theme_plan(ControlType::ComboBox, true);
    assert_eq!(p.theme, "DarkMode_CFD");
    assert!(!p.empty_sub_app && p.notify_change);
    let p = theme_plan(ControlType::GroupBox, true);
    assert_eq!(p.theme, "");
    assert!(p.empty_sub_app);
    let p = theme_plan(ControlType::GroupBox, false);
    assert_eq!(p.theme, "Explorer");
    assert!(!p.notify_change);
    assert_eq!(classify_child("BUTTON", 0x5007), Some(ControlType::GroupBox));
    assert_eq!(classify_child("Button", 0x0003), Some(ControlType::CheckBox));
    assert_eq!(classify_child("button", 0x0009), Some(ControlType::RadioButton));
    assert_eq!(classify_child("Button", 0x0000), Some(ControlType::Button));
    assert_eq!(classify_child("SysListView32", 0), Some(ControlType::List));
    assert_eq!(classify_child("Static", 0), None);
    assert_eq!(preferred_app_mode(true), 2);
    assert_eq!(preferred_app_mode(false), 0);
    assert!(dark_from_registry(0, 0));
    assert!(!dark_from_registry(0, 1));
    assert!(!dark_from_registry(2, 0));
}

#[test]
fn color_messages() {
    assert_eq!(
        standard_color_answer(0x0133, true),
        Some(ColorAnswer::Colors { text: COLOR_DARK_TEXT, background: Some(COLOR_DARK_BG), dark_brush: true })
    );
    assert_eq!(standard_color_answer(0x0014, false), Some(ColorAnswer::EraseBackground { dark_brush: false }));
    assert_eq!(standard_color_answer(0x0001, true), None);
    assert_eq!(tier_to_color(RatioTier::Ultra, false), 0x0000A000);
    assert_eq!(tier_to_color(RatioTier::Negligible, true), 0x00A0A0A0);
}

#[test]
fn panels_record_handles() {
    let ids = ActionPanelIds {
        btn_files: 1, btn_folder: 2, btn_remove: 3, btn_clear: 4, lbl_input: 5, combo_action_mode: 6,
        lbl_action_mode: 7, combo_algo: 8, lbl_algo: 9, chk_force: 10, lbl_accuracy: 11, btn_process: 12,
        btn_cancel: 13, btn_pause: 14,
    };
    let mut p = ActionPanel::new(ids);
    assert_eq!(p.process_hwnd(), 0);
    p.attach(ActionPanelHandles {
        panel: 100, files: 101, folder: 102, remove: 103, clear: 104, lbl_input: 105, lbl_action_mode: 106,
        action_mode: 107, lbl_algo: 108, combo_algo: 109, force: 110, lbl_accuracy: 111, process: 112, cancel: 113,
        pause: 114,
    });
    assert_eq!((p.hwnd(), p.combo_hwnd(), p.pause_hwnd()), (100, 109, 114));
    assert_eq!(p.ids().btn_pause, 14);
    let mut h = HeaderPanel::new(HeaderPanelIds { btn_settings: 1, btn_about: 2, btn_shortcuts: 3, btn_console: 4, btn_watcher: 5 });
    h.attach(HeaderPanelHandles { panel: 1, settings: 2, about: 3, shortcuts: 4, console: 5, watcher: 6 });
    assert_eq!(h.watcher_hwnd(), 6);
    let mut s = SearchPanel::new(SearchPanelIds {
        edit_search: 1, combo_filter_col: 2, combo_algo: 3, combo_size: 4, chk_case: 5, chk_regex: 6,
        lbl_results: 7, lbl_filter_by: 8, lbl_algo: 9, lbl_size: 10,
    });
    assert_eq!(s.search_hwnd(), 0);
    s.attach(SearchPanelHandles {
        panel: 1, search: 2, combo_filter_col: 3, combo_algo: 4, combo_size: 5, chk_case: 6, chk_regex: 7,
        lbl_results: 8, lbl_filter_by: 9, lbl_algo: 10, lbl_size: 11,
    });
    assert_eq!(s.results_hwnd(), 8);
    let mut sb = StatusBar::new(StatusBarIds { label_id: 40, progress_id: 41 });
    sb.attach(7, 8);
    assert_eq!((sb.label_hwnd(), sb.progress_hwnd(), sb.ids()), (7, 8, (40, 41)));
    let fl = FileListView::from_handles(3, 4);
    assert_eq!((fl.hwnd(), fl.empty_label_hwnd()), (3, 4));
    assert_eq!(Button::new(9).hwnd(), 9);
    assert_eq!(ComboBox::new(9).hwnd(), 9);
    assert_eq!(Label::new(9).hwnd(), 9);
    assert_eq!(ProgressBar::new(9).hwnd(), 9);
    assert_eq!(Trackbar::new(9).hwnd(), 9);
    assert_eq!(ListView::new(9).hwnd(), 9);
}

#[test]
fn list_geometry() {
    assert_eq!(column_def(0), ("Path", 250));
    assert_eq!(column_def(10).1, 110);
    assert_eq!(header_sort_format(0x0601, 2, 2, true), 0x0401);
    assert_eq!(header_sort_format(0x0401, 1, 2, true), 0x0001);
    assert_eq!(header_sort_format(0, 2, 2, false), 0x0200);
    assert_eq!(path_column_width(&[70, 70, -5, 80], 600), 380);
    assert_eq!(path_column_width(&[500], 550), 100);
    assert!(empty_label_visible(0));
    assert!(!empty_label_visible(3));
    assert_eq!(centered_origin(10, 20, 400, 100, 300, 20), (60, 60));
    assert_eq!(centered_origin(0, 0, 100, 100, 301, 20), (-100, 40));
    assert_eq!(panel_theme_value(true), 2);
}

#[test]
fn window_placement() {
    assert_eq!(window_origin(WindowAlignment::Manual(5, 6), 800, 600, None, (1920, 1080)), (5, 6));
    assert_eq!(window_origin(WindowAlignment::CenterOnScreen, 800, 600, None, (1920, 1080)), (560, 240));
    assert_eq!(window_origin(WindowAlignment::CenterOnParent, 200, 100, Some((100, 100, 500, 400)), (1920, 1080)), (200, 200));
    assert_eq!(window_origin(WindowAlignment::CenterOnParent, 200, 100, None, (1000, 1000)), (400, 450));
    assert_eq!(window_origin(WindowAlignment::CenterOnScreen, 1001, 10, None, (1000, 1000)), (0, 495));
    let ctx = DeclarativeContext::new(1, true, 2);
    assert_eq!((ctx.parent_hwnd, ctx.is_dark, ctx.h_font), (1, true, 2));
    assert_eq!(taskbar_flag(TaskbarState::Paused), 8);
    assert_eq!(taskbar_flag(TaskbarState::NoProgress), 0);
}

#[test]
fn message_words() {
    assert_eq!(trackbar_range_lparam(1, 16), 0x0010_0001);
    assert_eq!(trackbar_range_lparam(0x1_0001, 0x2_0002), 0x0002_0001);
    assert_eq!(split_words(0x0258_0320), (800, 600));
}

#[test]
fn key_shortcuts() {
    assert_eq!(resolve_key_action(0x41, true, false), InputAction::SelectAll);
    assert_eq!(resolve_key_action(0x4F, true, true), InputAction::OpenFolder);
    assert_eq!(resolve_key_action(0x4F, true, false), InputAction::OpenFiles);
    assert_eq!(resolve_key_action(0x4F, false, true), InputAction::NoAction);
    assert_eq!(resolve_key_action(0x2E, false, false), InputAction::Delete);
    assert!(forwards_to_parent(WM_KEYDOWN, InputAction::Paste));
    assert!(!forwards_to_parent(WM_KEYDOWN, InputAction::Copy));
    assert!(!forwards_to_parent(0x0101, InputAction::Paste));
    assert!(is_edit_class("EDIT") && is_edit_class("Edit") && !is_edit_class("Edits"));
    assert!(key_is_down(-32768) && !key_is_down(1));
    assert_eq!(global_shortcut_effect(InputAction::Paste, true, true, true, false), ShortcutEffect::PasteIntoSource);
    assert_eq!(global_shortcut_effect(InputAction::Paste, true, false, false, true), ShortcutEffect::AddFromClipboard);
    assert_eq!(global_shortcut_effect(InputAction::SelectAll, true, false, false, true), ShortcutEffect::SelectAllRows);
    assert_eq!(global_shortcut_effect(InputAction::Delete, true, true, true, false), ShortcutEffect::ClearInSource);
    assert_eq!(global_shortcut_effect(InputAction::Copy, true, false, false, true), ShortcutEffect::NotHandled);
}

#[test]
fn word_deletion() {
    assert_eq!(ctrl_backspace_plan(2, 5, "hello"), BackspacePlan::DeleteSelection);
    assert_eq!(ctrl_backspace_plan(0, 0, "hello"), BackspacePlan::PassOn);
    assert_eq!(ctrl_backspace_plan(7, 7, "abc def"), BackspacePlan::DeleteRange(4, 7));
    assert_eq!(ctrl_backspace_plan(6, 6, "abc   "), BackspacePlan::DeleteRange(3, 6));
    assert_eq!(ctrl_backspace_plan(50, 50, "ab cd"), BackspacePlan::DeleteRange(3, 50));
}

fn entry(ts: u64) -> LogEntry {
    LogEntry { timestamp: ts, level: LogLevel::Info, message: format!("m{}", ts) }
}

#[test]
fn console_keeps_latest_entries() {
    let mut c = ConsoleLog::new();
    for i in 0..1003u64 {
        c.append(entry(i));
    }
    assert!(c.history.is_empty());
    c.flush_pending();
    assert_eq!(c.history.len(), 1000);
    assert_eq!(c.history[0].timestamp, 3);
    assert_eq!(c.history[999].timestamp, 1002);
    assert!(c.pending.is_empty());
    c.clear();
    assert!(c.copy_text().is_none());
}

#[test]
fn console_copy_and_display() {
    let mut c = ConsoleLog::new();
    c.append(entry(1));
    c.append(entry(2));
    c.flush_pending();
    let mut expected: Vec<u16> = "[00:00:01] [INFO] m1\r\n[00:00:02] [INFO] m2\r\n".encode_utf16().collect();
    expected.push(0);
    assert_eq!(c.copy_text().unwrap(), expected);
    assert_eq!(display_text(&w("abcdef"), 4), vec![97, 98, 99, 0]);
    assert_eq!(display_text(&w("ab"), 10), w("ab"));
    assert!(display_text(&w("ab"), 0).is_empty());
}
