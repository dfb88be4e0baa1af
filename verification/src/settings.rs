//! The settings window's logic: searching the settings, the theme choice and
//! its round trip to the main window, the log-level mask, the concurrency
//! field, and the update check's state and texts.
use vstd::prelude::*;
use crate::state::AppTheme;
use crate::text::{to_lowercase, trim, lowercase, trimmed, contains_seq, collect_chars, contains_chars};
use crate::updater::UpdateInfo;
use crate::watcher::{digits_value, all_digits};
use crate::wide::{string_push, utf16_encode, decimal, push_str_units, push_decimal};

verus! {

/// A setting that the settings search can find.
#[derive(Clone, Debug)]
pub struct SearchTarget {
    /// The tab the setting is on.
    pub tab_idx: usize,
    /// The control to highlight.
    pub ctrl_id: u16,
    pub title: &'static str,
    pub keywords: Vec<&'static str>,
}

pub const IDC_COMBO_THEME: u16 = 2001;
pub const IDC_CHK_FORCE_STOP: u16 = 2007;
pub const IDC_CHK_CONTEXT_MENU: u16 = 2008;
pub const IDC_CHK_SYSTEM_GUARD: u16 = 2009;
pub const IDC_BTN_CHECK_UPDATE: u16 = 2010;
pub const IDC_BTN_RESTART_TI: u16 = 2012;
pub const IDC_CHK_LOW_POWER: u16 = 2013;
pub const IDC_SLIDER_THREADS: u16 = 2014;
pub const IDC_BTN_RESET_ALL: u16 = 2016;
pub const IDC_CHK_LOG_ENABLED: u16 = 2021;
pub const IDC_CHK_LOG_ERRORS: u16 = 2022;
pub const IDC_EDIT_CONCURRENT: u16 = 2031;
pub const IDC_CHK_SKIP_EXT: u16 = 2041;
pub const IDC_EDIT_EXTENSIONS: u16 = 2042;
pub const IDC_CHK_SET_ATTR: u16 = 2044;
pub const IDC_COMBO_UI_SCALE: u16 = 2045;
/// The id of the first tab button; the six tabs follow it.
pub const IDC_TAB_START: u16 = 2100;

/// A setting as the search sees it: tab, control id, title and keywords.
pub type TargetEntry = (usize, u16, Seq<char>, Seq<Seq<char>>);

/// The search's view of a setting.
pub open spec fn target_view(t: SearchTarget) -> TargetEntry {
    (t.tab_idx, t.ctrl_id, t.title@, t.keywords@.map_values(|k: &str| k@))
}

/// The settings the search knows, tab by tab.
pub open spec fn target_table() -> Seq<TargetEntry> {
    seq![
        (0usize, IDC_CHK_FORCE_STOP, "Force Kill Processes"@, seq!["force"@, "kill"@, "process"@, "terminate"@, "lock"@, "automatically"@]),
        (0usize, IDC_CHK_CONTEXT_MENU, "Explorer Context Menu"@, seq!["explorer"@, "context"@, "menu"@, "right"@, "click"@, "add"@]),
        (0usize, IDC_CHK_SYSTEM_GUARD, "System Safety Guard"@, seq!["system"@, "guard"@, "safety"@, "critical"@, "prevent"@, "file"@]),
        (1usize, IDC_COMBO_THEME, "Application Theme"@, seq!["theme"@, "light"@, "dark"@, "appearance"@, "color"@, "system"@, "default"@]),
        (1usize, IDC_COMBO_UI_SCALE, "UI Scaling"@, seq!["scale"@, "scaling"@, "size"@, "zoom"@, "interface"@, "ui"@, "adjust"@]),
        (1usize, IDC_CHK_SET_ATTR, "Show Compressed Color"@, seq!["compress"@, "color"@, "blue"@, "attribute"@, "mark"@, "show"@]),
        (2usize, IDC_CHK_LOW_POWER, "Efficiency Mode"@, seq!["efficiency"@, "mode"@, "low"@, "power"@, "background"@, "resource"@, "reduce"@]),
        (2usize, IDC_SLIDER_THREADS, "CPU Thread Limit"@, seq!["cpu"@, "thread"@, "limit"@, "worker"@, "core"@, "max"@, "maximum"@]),
        (2usize, IDC_EDIT_CONCURRENT, "Concurrent File Queue"@, seq!["concurrent"@, "file"@, "queue"@, "simultaneous"@, "unlimited"@]),
        (3usize, IDC_CHK_SKIP_EXT, "Smart Compression Skip"@, seq!["smart"@, "skip"@, "unlikely"@, "filter"@, "compress"@, "further"@]),
        (3usize, IDC_EDIT_EXTENSIONS, "Excluded Extensions"@, seq!["exclude"@, "extension"@, "format"@, "zip"@, "rar"@, "default"@]),
        (4usize, IDC_CHK_LOG_ENABLED, "Enable Diagnostic Logging"@, seq!["diagnostic"@, "log"@, "console"@, "real-time"@, "enable"@, "show"@]),
        (4usize, IDC_CHK_LOG_ERRORS, "Log Levels (Errors, Warn, Info)"@, seq!["level"@, "error"@, "warning"@, "info"@, "trace"@, "log"@]),
        (5usize, IDC_BTN_CHECK_UPDATE, "Check for Updates"@, seq!["compactrs"@, "update"@, "version"@, "latest"@, "check"@]),
        (5usize, IDC_BTN_RESTART_TI, "Advanced Startup (TI)"@, seq!["advanced"@, "startup"@, "trustedinstaller"@, "restart"@, "privilege"@, "ti"@]),
        (5usize, IDC_BTN_RESET_ALL, "Reset Application Defaults"@, seq!["reset"@, "default"@, "application"@]),
    ]
}

fn target(tab_idx: usize, ctrl_id: u16, title: &'static str, keywords: Vec<&'static str>) -> (r: SearchTarget)
    ensures
        r.tab_idx == tab_idx && r.ctrl_id == ctrl_id && r.title == title && r.keywords@ == keywords@,
{
    SearchTarget { tab_idx, ctrl_id, title, keywords }
}

/// The settings the search knows (see `target_table`).
#[verifier::rlimit(50)]
pub fn get_search_targets() -> (r: Vec<SearchTarget>)
    ensures
        r@.map_values(|t: SearchTarget| target_view(t)) == target_table(),
{
    let mut v: Vec<SearchTarget> = Vec::new();
    {
        let kws: Vec<&'static str> = vec!["force", "kill", "process", "terminate", "lock", "automatically"];
        assert(kws@.map_values(|k: &str| k@) =~= seq!["force"@, "kill"@, "process"@, "terminate"@, "lock"@, "automatically"@]);
        v.push(target(0, IDC_CHK_FORCE_STOP, "Force Kill Processes", kws));
    }
    {
        let kws: Vec<&'static str> = vec!["explorer", "context", "menu", "right", "click", "add"];
        assert(kws@.map_values(|k: &str| k@) =~= seq!["explorer"@, "context"@, "menu"@, "right"@, "click"@, "add"@]);
        v.push(target(0, IDC_CHK_CONTEXT_MENU, "Explorer Context Menu", kws));
    }
    {
        let kws: Vec<&'static str> = vec!["system", "guard", "safety", "critical", "prevent", "file"];
        assert(kws@.map_values(|k: &str| k@) =~= seq!["system"@, "guard"@, "safety"@, "critical"@, "prevent"@, "file"@]);
        v.push(target(0, IDC_CHK_SYSTEM_GUARD, "System Safety Guard", kws));
    }
    {
        let kws: Vec<&'static str> = vec!["theme", "light", "dark", "appearance", "color", "system", "default"];
        assert(kws@.map_values(|k: &str| k@) =~= seq!["theme"@, "light"@, "dark"@, "appearance"@, "color"@, "system"@, "default"@]);
        v.push(target(1, IDC_COMBO_THEME, "Application Theme", kws));
    }
    {
        let kws: Vec<&'static str> = vec!["scale", "scaling", "size", "zoom", "interface", "ui", "adjust"];
        assert(kws@.map_values(|k: &str| k@) =~= seq!["scale"@, "scaling"@, "size"@, "zoom"@, "interface"@, "ui"@, "adjust"@]);
        v.push(target(1, IDC_COMBO_UI_SCALE, "UI Scaling", kws));
    }
    {
        let kws: Vec<&'static str> = vec!["compress", "color", "blue", "attribute", "mark", "show"];
        assert(kws@.map_values(|k: &str| k@) =~= seq!["compress"@, "color"@, "blue"@, "attribute"@, "mark"@, "show"@]);
        v.push(target(1, IDC_CHK_SET_ATTR, "Show Compressed Color", kws));
    }
    {
        let kws: Vec<&'static str> = vec!["efficiency", "mode", "low", "power", "background", "resource", "reduce"];
        assert(kws@.map_values(|k: &str| k@) =~= seq!["efficiency"@, "mode"@, "low"@, "power"@, "background"@, "resource"@, "reduce"@]);
        v.push(target(2, IDC_CHK_LOW_POWER, "Efficiency Mode", kws));
    }
    {
        let kws: Vec<&'static str> = vec!["cpu", "thread", "limit", "worker", "core", "max", "maximum"];
        assert(kws@.map_values(|k: &str| k@) =~= seq!["cpu"@, "thread"@, "limit"@, "worker"@, "core"@, "max"@, "maximum"@]);
        v.push(target(2, IDC_SLIDER_THREADS, "CPU Thread Limit", kws));
    }
    {
        let kws: Vec<&'static str> = vec!["concurrent", "file", "queue", "simultaneous", "unlimited"];
        assert(kws@.map_values(|k: &str| k@) =~= seq!["concurrent"@, "file"@, "queue"@, "simultaneous"@, "unlimited"@]);
        v.push(target(2, IDC_EDIT_CONCURRENT, "Concurrent File Queue", kws));
    }
    {
        let kws: Vec<&'static str> = vec!["smart", "skip", "unlikely", "filter", "compress", "further"];
        assert(kws@.map_values(|k: &str| k@) =~= seq!["smart"@, "skip"@, "unlikely"@, "filter"@, "compress"@, "further"@]);
        v.push(target(3, IDC_CHK_SKIP_EXT, "Smart Compression Skip", kws));
    }
    {
        let kws: Vec<&'static str> = vec!["exclude", "extension", "format", "zip", "rar", "default"];
        assert(kws@.map_values(|k: &str| k@) =~= seq!["exclude"@, "extension"@, "format"@, "zip"@, "rar"@, "default"@]);
        v.push(target(3, IDC_EDIT_EXTENSIONS, "Excluded Extensions", kws));
    }
    {
        let kws: Vec<&'static str> = vec!["diagnostic", "log", "console", "real-time", "enable", "show"];
        assert(kws@.map_values(|k: &str| k@) =~= seq!["diagnostic"@, "log"@, "console"@, "real-time"@, "enable"@, "show"@]);
        v.push(target(4, IDC_CHK_LOG_ENABLED, "Enable Diagnostic Logging", kws));
    }
    {
        let kws: Vec<&'static str> = vec!["level", "error", "warning", "info", "trace", "log"];
        assert(kws@.map_values(|k: &str| k@) =~= seq!["level"@, "error"@, "warning"@, "info"@, "trace"@, "log"@]);
        v.push(target(4, IDC_CHK_LOG_ERRORS, "Log Levels (Errors, Warn, Info)", kws));
    }
    {
        let kws: Vec<&'static str> = vec!["compactrs", "update", "version", "latest", "check"];
        assert(kws@.map_values(|k: &str| k@) =~= seq!["compactrs"@, "update"@, "version"@, "latest"@, "check"@]);
        v.push(target(5, IDC_BTN_CHECK_UPDATE, "Check for Updates", kws));
    }
    {
        let kws: Vec<&'static str> = vec!["advanced", "startup", "trustedinstaller", "restart", "privilege", "ti"];
        assert(kws@.map_values(|k: &str| k@) =~= seq!["advanced"@, "startup"@, "trustedinstaller"@, "restart"@, "privilege"@, "ti"@]);
        v.push(target(5, IDC_BTN_RESTART_TI, "Advanced Startup (TI)", kws));
    }
    {
        let kws: Vec<&'static str> = vec!["reset", "default", "application"];
        assert(kws@.map_values(|k: &str| k@) =~= seq!["reset"@, "default"@, "application"@]);
        v.push(target(5, IDC_BTN_RESET_ALL, "Reset Application Defaults", kws));
    }
    assert(v@.map_values(|t: SearchTarget| target_view(t)) =~= target_table());
    v
}

/// Whether a setting matches the (lower-cased, trimmed) search text: its
/// lower-cased title contains the text, or one of its keywords contains the
/// text or is contained in it.
pub open spec fn target_matches(t: TargetEntry, text: Seq<char>) -> bool {
    contains_seq(lowercase(t.2), text) || exists|k: int|
        0 <= k < t.3.len() && (contains_seq(#[trigger] t.3[k], text) || contains_seq(text, t.3[k]))
}

/// The test `target_matches` as a predicate on settings.
pub open spec fn matches_text(text: Seq<char>) -> spec_fn(TargetEntry) -> bool {
    |t: TargetEntry| target_matches(t, text)
}

/// The search text as the search uses it: lower-cased, then trimmed.
pub open spec fn search_text(query: Seq<char>) -> Seq<char> {
    trimmed(lowercase(query))
}

fn matches_target(t: &SearchTarget, text: &Vec<char>) -> (r: bool)
    ensures
        r == target_matches(target_view(*t), text@),
{
    let ghost kws = t.keywords@.map_values(|k: &str| k@);
    let title = to_lowercase(t.title);
    let tc = collect_chars(title.as_str());
    assert(tc@ == lowercase(t.title@));
    assert(target_view(*t).2 == t.title@);
    if contains_chars(&tc, text) {
        return true;
    }
    let n = t.keywords.len();
    let mut k: usize = 0;
    while k < n
        invariant
            n == t.keywords@.len(),
            kws == t.keywords@.map_values(|k: &str| k@),
            0 <= k <= n,
            !contains_seq(lowercase(t.title@), text@),
            forall|j: int| 0 <= j < k ==> !(contains_seq(#[trigger] kws[j], text@) || contains_seq(text@, kws[j])),
        decreases n - k,
    {
        let kw = collect_chars(t.keywords[k]);
        assert(kw@ == kws[k as int]);
        if contains_chars(&kw, text) || contains_chars(text, &kw) {
            assert(target_view(*t).3 == kws);
            assert(contains_seq(kws[k as int], text@) || contains_seq(text@, kws[k as int]));
            return true;
        }
        k += 1;
    }
    false
}

/// What the settings search shows for what was typed: nothing (the result
/// list hides) when the text is empty before or after lower-casing and
/// trimming, else the matching settings in their order (the list hides too
/// when there are none).
pub fn search_settings(query: &str) -> (r: Option<Vec<SearchTarget>>)
    ensures
        query@.len() == 0 ==> r is None,
        query@.len() != 0 && search_text(query@).len() == 0 ==> r is None,
        query@.len() != 0 && search_text(query@).len() != 0 ==> (r matches Some(v)
            && v@.map_values(|t: SearchTarget| target_view(t)) == target_table().filter(matches_text(search_text(query@)))),
{
    let qc = collect_chars(query);
    if qc.len() == 0 {
        return None;
    }
    let lower = to_lowercase(query);
    settings_matching(lower.as_str())
}

/// The settings search for text already lower-cased: nothing when it is
/// empty after trimming, else the matching settings in their order.
pub fn settings_matching(lowered: &str) -> (r: Option<Vec<SearchTarget>>)
    ensures
        trimmed(lowered@).len() == 0 ==> r is None,
        trimmed(lowered@).len() != 0 ==> (r matches Some(v)
            && v@.map_values(|t: SearchTarget| target_view(t)) == target_table().filter(matches_text(trimmed(lowered@)))),
{
    let text_s = trim(lowered);
    let text = collect_chars(text_s.as_str());
    if text.len() == 0 {
        return None;
    }
    let targets = get_search_targets();
    let ghost all = targets@.map_values(|t: SearchTarget| target_view(t));
    let ghost pred = matches_text(text@);
    let mut out: Vec<SearchTarget> = Vec::new();
    let mut i: usize = 0;
    proof {
        reveal(Seq::filter);
        assert(all.take(0) =~= Seq::<TargetEntry>::empty());
        assert(out@.map_values(|t: SearchTarget| target_view(t)) =~= all.take(0).filter(pred));
    }
    while i < targets.len()
        invariant
            all == targets@.map_values(|t: SearchTarget| target_view(t)),
            all.len() == targets@.len(),
            pred == matches_text(text@),
            0 <= i <= all.len(),
            out@.map_values(|t: SearchTarget| target_view(t)) == all.take(i as int).filter(pred),
        decreases all.len() - i,
    {
        let hit = matches_target(&targets[i], &text);
        let ghost before = out@;
        proof {
            reveal(Seq::filter);
            assert(all.take(i + 1).drop_last() =~= all.take(i as int));
            assert(all.take(i + 1).last() == all[i as int]);
            assert(all[i as int] == target_view(targets@[i as int]));
        }
        if hit {
            let t = SearchTarget {
                tab_idx: targets[i].tab_idx,
                ctrl_id: targets[i].ctrl_id,
                title: targets[i].title,
                keywords: copy_keywords(&targets[i].keywords),
            };
            out.push(t);
            assert(out@.map_values(|t: SearchTarget| target_view(t)) =~= before.map_values(|t: SearchTarget| target_view(t)).push(all[i as int]));
        } else {
            assert(out@ == before);
        }
        i += 1;
    }
    assert(all.take(all.len() as int) =~= all);
    Some(out)
}

fn copy_keywords(k: &Vec<&'static str>) -> (r: Vec<&'static str>)
    ensures
        r@ == k@,
{
    let mut out: Vec<&'static str> = Vec::new();
    let mut i: usize = 0;
    while i < k.len()
        invariant
            0 <= i <= k@.len(),
            out@ == k@.take(i as int),
        decreases k@.len() - i,
    {
        out.push(k[i]);
        assert(k@.take(i + 1) =~= k@.take(i as int).push(k@[i as int]));
        i += 1;
    }
    assert(k@.take(k@.len() as int) =~= k@);
    out
}

/// The height of the search result list: one item height per result plus 4, at most 200.
pub fn search_list_height(item_height: i32, count: usize) -> (r: i32)
    requires
        0 <= item_height,
        count <= i32::MAX,
        item_height * count + 4 <= i32::MAX,
    ensures
        r == (if item_height * count + 4 > 200 { 200 } else { item_height * count + 4 }),
{
    let c = count as i32;
    assert(item_height * c <= item_height * count) by (nonlinear_arith)
        requires
            c == count,
            0 <= item_height;
    let h = item_height * c + 4;
    if h > 200 {
        200
    } else {
        h
    }
}

/// The tab a tab button's command id selects.
pub fn tab_of_command(id: u16) -> (r: Option<usize>)
    ensures
        IDC_TAB_START <= id <= IDC_TAB_START + 5 ==> r == Some((id - IDC_TAB_START) as usize),
        !(IDC_TAB_START <= id <= IDC_TAB_START + 5) ==> r is None,
{
    if id >= IDC_TAB_START && id <= IDC_TAB_START + 5 {
        Some((id - IDC_TAB_START) as usize)
    } else {
        None
    }
}

/// The theme chosen in the theme combo box (0 system, 1 dark, 2 light; others system).
pub fn theme_from_combo(idx: i32) -> (r: AppTheme)
    ensures
        r == (if idx == 1 {
            AppTheme::Dark
        } else if idx == 2 {
            AppTheme::Light
        } else {
            AppTheme::System
        }),
{
    match idx {
        1 => AppTheme::Dark,
        2 => AppTheme::Light,
        _ => AppTheme::System,
    }
}

/// The theme chosen with the radio buttons of the settings dialog's first form.
pub fn theme_from_radio(id: u16) -> (r: Option<AppTheme>)
    ensures
        id == 2002 ==> r == Some(AppTheme::System),
        id == 2003 ==> r == Some(AppTheme::Dark),
        id == 2004 ==> r == Some(AppTheme::Light),
        !(2002 <= id <= 2004) ==> r is None,
{
    match id {
        2002 => Some(AppTheme::System),
        2003 => Some(AppTheme::Dark),
        2004 => Some(AppTheme::Light),
        _ => None,
    }
}

/// The value that tells the main window which theme was chosen (0 system, 1 dark, 2 light).
pub open spec fn theme_code(theme: AppTheme) -> usize {
    match theme {
        AppTheme::System => 0,
        AppTheme::Dark => 1,
        AppTheme::Light => 2,
    }
}

/// The value that tells the main window which theme was chosen (see `theme_code`).
pub fn theme_request_value(theme: AppTheme) -> (r: usize)
    ensures
        r == theme_code(theme),
{
    match theme {
        AppTheme::System => 0,
        AppTheme::Dark => 1,
        AppTheme::Light => 2,
    }
}

/// The main window applies the very theme the settings window sends, whatever its own theme was.
pub proof fn lemma_theme_request_roundtrip(theme: AppTheme, current: AppTheme)
    ensures
        crate::window::theme_of_request(theme_code(theme), current) == theme,
{
}

/// Log levels as mask bits.
pub const LOG_LEVEL_ERROR: u8 = 1;
pub const LOG_LEVEL_WARN: u8 = 2;
pub const LOG_LEVEL_INFO: u8 = 4;
pub const LOG_LEVEL_TRACE: u8 = 8;

/// The log-level mask from the four level check boxes.
pub fn log_mask_from_checks(errors: bool, warnings: bool, info: bool, trace: bool) -> (r: u8)
    ensures
        r == (if errors { 1u8 } else { 0u8 }) + (if warnings { 2u8 } else { 0u8 }) + (if info { 4u8 } else { 0u8 })
            + (if trace { 8u8 } else { 0u8 }),
{
    let mut mask: u8 = 0;
    if errors {
        mask = mask + LOG_LEVEL_ERROR;
    }
    if warnings {
        mask = mask + LOG_LEVEL_WARN;
    }
    if info {
        mask = mask + LOG_LEVEL_INFO;
    }
    if trace {
        mask = mask + LOG_LEVEL_TRACE;
    }
    mask
}

/// Which of the four level check boxes a log-level mask ticks: errors,
/// warnings, info, trace.
pub fn log_checks_from_mask(mask: u8) -> (r: (bool, bool, bool, bool))
    ensures
        r.0 == (mask & LOG_LEVEL_ERROR != 0),
        r.1 == (mask & LOG_LEVEL_WARN != 0),
        r.2 == (mask & LOG_LEVEL_INFO != 0),
        r.3 == (mask & LOG_LEVEL_TRACE != 0),
{
    (mask & LOG_LEVEL_ERROR != 0, mask & LOG_LEVEL_WARN != 0, mask & LOG_LEVEL_INFO != 0, mask & LOG_LEVEL_TRACE != 0)
}

/// The check boxes read back from the mask they make are the same boxes.
pub proof fn lemma_log_checks_roundtrip(errors: bool, warnings: bool, info: bool, trace: bool)
    ensures
        ({
            let m: u8 = ((if errors { 1u8 } else { 0u8 }) + (if warnings { 2u8 } else { 0u8 })
                + (if info { 4u8 } else { 0u8 }) + (if trace { 8u8 } else { 0u8 })) as u8;
            &&& (m & 1u8 != 0) == errors
            &&& (m & 2u8 != 0) == warnings
            &&& (m & 4u8 != 0) == info
            &&& (m & 8u8 != 0) == trace
        }),
{
    let a: u8 = if errors { 1u8 } else { 0u8 };
    let b: u8 = if warnings { 2u8 } else { 0u8 };
    let c: u8 = if info { 4u8 } else { 0u8 };
    let d: u8 = if trace { 8u8 } else { 0u8 };
    assert(((a + b + c + d) as u8 & 1u8 != 0) == (a == 1u8)
        && ((a + b + c + d) as u8 & 2u8 != 0) == (b == 2u8)
        && ((a + b + c + d) as u8 & 4u8 != 0) == (c == 4u8)
        && ((a + b + c + d) as u8 & 8u8 != 0) == (d == 8u8)) by (bit_vector)
        requires
            a == 0u8 || a == 1u8,
            b == 0u8 || b == 2u8,
            c == 0u8 || c == 4u8,
            d == 0u8 || d == 8u8;
}

/// The worker threads in use: the limit set, or every CPU when it is 0.
pub open spec fn threads_in_use(max_threads: u32, cpu_count: u32) -> u32 {
    if max_threads == 0 {
        cpu_count
    } else {
        max_threads
    }
}

/// The thread-limit line of the settings window: the threads in use and
/// "Maximum worker threads (Current: n)", null-terminated.
pub fn thread_limit_label(max_threads: u32, cpu_count: u32) -> (r: (u32, Vec<u16>))
    ensures
        r.0 == threads_in_use(max_threads, cpu_count),
        r.1@ == (utf16_encode("Maximum worker threads (Current: "@) + decimal(r.0 as nat)
            + utf16_encode(")"@)).push(0u16),
{
    let current = if max_threads == 0 { cpu_count } else { max_threads };
    let mut out: Vec<u16> = Vec::new();
    push_str_units(&mut out, "Maximum worker threads (Current: ");
    push_decimal(&mut out, current as u64);
    push_str_units(&mut out, ")");
    out.push(0);
    (current, out)
}

/// The leading decimal digits of `s`.
pub open spec fn digit_prefix(s: Seq<char>) -> Seq<char>
    decreases s.len(),
{
    if s.len() > 0 && '0' <= s[0] <= '9' {
        seq![s[0]] + digit_prefix(s.drop_first())
    } else {
        Seq::empty()
    }
}

/// The concurrency limit after the field is read: 0 for an empty field, the
/// number its leading digits make when there are some and it fits in `u32`,
/// and `current` otherwise.
pub open spec fn concurrent_limit(text: Seq<char>, current: u32) -> u32 {
    let d = digit_prefix(text);
    if text.len() == 0 {
        0
    } else if d.len() > 0 && digits_value(d) <= u32::MAX {
        digits_value(d) as u32
    } else {
        current
    }
}

proof fn lemma_digit_prefix(s: Seq<char>, i: int)
    requires
        0 <= i <= s.len(),
        forall|k: int| 0 <= k < i ==> '0' <= #[trigger] s[k] <= '9',
        i == s.len() || !('0' <= s[i] <= '9'),
    ensures
        digit_prefix(s) == s.take(i),
    decreases i,
{
    if i == 0 {
        assert(s.take(0) =~= Seq::<char>::empty());
    } else {
        lemma_digit_prefix(s.drop_first(), i - 1);
        assert(seq![s[0]] + s.drop_first().take(i - 1) =~= s.take(i));
    }
}

/// Reads the concurrency field (see `concurrent_limit`).
pub fn parse_concurrent_limit(text: &str, current: u32) -> (r: u32)
    ensures
        r == concurrent_limit(text@, current),
{
    let cs = collect_chars(text);
    if cs.len() == 0 {
        return 0;
    }
    let mut n: usize = 0;
    while n < cs.len() && '0' <= cs[n] && cs[n] <= '9'
        invariant
            0 <= n <= cs@.len(),
            forall|k: int| 0 <= k < n ==> '0' <= #[trigger] cs@[k] <= '9',
        decreases cs@.len() - n,
    {
        n += 1;
    }
    proof {
        lemma_digit_prefix(cs@, n as int);
    }
    if n == 0 {
        return current;
    }
    let mut acc: u64 = 0;
    let mut i: usize = 0;
    while i < n
        invariant
            0 <= i <= n <= cs@.len(),
            forall|k: int| 0 <= k < n ==> '0' <= #[trigger] cs@[k] <= '9',
            acc as int == if digits_value(cs@.take(i as int)) <= u32::MAX { digits_value(cs@.take(i as int)) as int } else { u32::MAX + 1 },
        decreases n - i,
    {
        let digit = (cs[i] as u64) - ('0' as u64);
        assert(cs@.take(i + 1).drop_last() =~= cs@.take(i as int));
        let next = acc * 10 + digit;
        acc = if next <= 0xFFFF_FFFF { next } else { 0x1_0000_0000 };
        i += 1;
    }
    if acc <= 0xFFFF_FFFF {
        acc as u32
    } else {
        current
    }
}

/// Where the update check of the settings window stands.
#[derive(Clone, Copy, Debug, PartialEq, Eq, Structural)]
pub enum UpdateStatus {
    Idle,
    Checking,
    Updating,
}

/// The update check of the settings window: its status and the release found.
pub struct UpdateFlow {
    pub status: UpdateStatus,
    pub pending: Option<UpdateInfo>,
}

/// What the update button starts.
#[derive(Clone, Debug)]
pub enum UpdateRequest {
    /// Download and install the release at this address (status: updating).
    Download(String),
    /// Look for a release (status: checking).
    Check,
}

/// The texts of the update button and of the status label.
#[derive(Clone, Debug)]
pub struct UpdateTexts {
    /// The button's new text; `None` leaves the text it shows.
    pub button: Option<String>,
    pub label: String,
    pub button_enabled: bool,
}

fn append_str(out: &mut String, s: &str)
    ensures
        final(out)@ == old(out)@ + s@,
{
    let ghost start = out@;
    for c in it: s.chars()
        invariant
            it.seq() == s@,
            out@ == start + s@.take(it.index() as int),
    {
        proof {
            assert(s@.take(it.index() + 1) =~= s@.take(it.index() as int).push(c));
        }
        string_push(out, c);
    }
    assert(s@.take(s@.len() as int) =~= s@);
}

fn text_of(s: &str) -> (r: String)
    ensures
        r@ == s@,
{
    let mut out = String::new();
    append_str(&mut out, s);
    assert(out@ =~= s@);
    out
}

fn text_of_two(a: &str, b: &str) -> (r: String)
    ensures
        r@ == a@ + b@,
{
    let mut out = String::new();
    append_str(&mut out, a);
    append_str(&mut out, b);
    assert(out@ =~= a@ + b@);
    out
}

impl UpdateFlow {
    /// Nothing checked yet.
    pub fn new() -> (r: Self)
        ensures
            r.status == UpdateStatus::Idle,
            r.pending is None,
    {
        UpdateFlow { status: UpdateStatus::Idle, pending: None }
    }

    /// The update button was clicked: download the release found, or look for one.
    pub fn on_button(&mut self) -> (r: (UpdateRequest, UpdateTexts))
        ensures
            match old(self).pending {
                Some(info) => (r.0 matches UpdateRequest::Download(url) && url@ == info.download_url@)
                    && final(self).status == UpdateStatus::Updating
                    && (r.1.button matches Some(b) && b@ == "Updating..."@)
                    && r.1.label@ == "Downloading..."@ && !r.1.button_enabled,
                None => r.0 is Check && final(self).status == UpdateStatus::Checking
                    && r.1.button is None && r.1.label@ == "Checking..."@ && !r.1.button_enabled,
            },
            final(self).pending == old(self).pending,
    {
        match &self.pending {
            Some(info) => {
                let url = text_of(info.download_url.as_str());
                self.status = UpdateStatus::Updating;
                (UpdateRequest::Download(url), UpdateTexts {
                    button: Some(text_of("Updating...")),
                    label: text_of("Downloading..."),
                    button_enabled: false,
                })
            },
            None => {
                self.status = UpdateStatus::Checking;
                (UpdateRequest::Check, UpdateTexts {
                    button: None,
                    label: text_of("Checking..."),
                    button_enabled: false,
                })
            },
        }
    }

    /// The check finished: remember the release found (if any) and say so.
    pub fn on_result(&mut self, result: Result<Option<UpdateInfo>, &'static str>) -> (r: UpdateTexts)
        ensures
            final(self).status == UpdateStatus::Idle,
            r.button_enabled,
            match result {
                Ok(Some(info)) => final(self).pending matches Some(p) && p.version@ == info.version@
                    && p.download_url@ == info.download_url@
                    && r.label@ == "Latest: "@ + info.version@ && (r.button matches Some(b) && b@ == "Update Now"@),
                Ok(None) => final(self).pending is None && r.label@ == "You have the latest version."@
                    && (r.button matches Some(b) && b@ == "Check for Updates"@),
                Err(e) => final(self).pending is None && r.label@ == "Error: "@ + e@
                    && (r.button matches Some(b) && b@ == "Retry Check"@),
            },
    {
        self.status = UpdateStatus::Idle;
        match result {
            Ok(Some(info)) => {
                let label = text_of_two("Latest: ", info.version.as_str());
                let kept = UpdateInfo {
                    version: text_of(info.version.as_str()),
                    download_url: text_of(info.download_url.as_str()),
                };
                self.pending = Some(kept);
                UpdateTexts { button: Some(text_of("Update Now")), label, button_enabled: true }
            },
            Ok(None) => {
                self.pending = None;
                UpdateTexts {
                    button: Some(text_of("Check for Updates")),
                    label: text_of("You have the latest version."),
                    button_enabled: true,
                }
            },
            Err(e) => {
                self.pending = None;
                UpdateTexts { button: Some(text_of("Retry Check")), label: text_of_two("Error: ", e), button_enabled: true }
            },
        }
    }
}

/// The update check of the settings window's first form.
#[derive(Clone, Debug)]
pub enum LegacyUpdateStatus {
    Idle,
    Checking,
    /// A newer version (version, download address).
    Available(String, String),
    UpToDate,
    Error(String),
}

/// What the first form's update button does.
#[derive(Clone, Debug)]
pub enum LegacyButtonAction {
    /// Download and install from this address.
    Download(String),
    /// Nothing: a check is under way.
    Ignore,
    /// Start a check; the label says `Checking for updates...` and the button is disabled.
    StartCheck,
}

/// The first form's update button was clicked.
pub fn legacy_update_click(status: &LegacyUpdateStatus) -> (r: (LegacyButtonAction, bool))
    ensures
        match *status {
            LegacyUpdateStatus::Available(_, url) => (r.0 matches LegacyButtonAction::Download(u) && u@ == url@) && !r.1,
            LegacyUpdateStatus::Checking => r.0 is Ignore && !r.1,
            _ => r.0 is StartCheck && r.1,
        },
{
    match status {
        LegacyUpdateStatus::Available(_, url) => (LegacyButtonAction::Download(text_of(url.as_str())), false),
        LegacyUpdateStatus::Checking => (LegacyButtonAction::Ignore, false),
        _ => (LegacyButtonAction::StartCheck, true),
    }
}

/// The status a finished check leads to in the first form.
pub fn legacy_status_of(result: Result<Option<UpdateInfo>, &'static str>) -> (r: LegacyUpdateStatus)
    ensures
        match result {
            Ok(Some(info)) => r matches LegacyUpdateStatus::Available(v, u) && v@ == info.version@ && u@ == info.download_url@,
            Ok(None) => r is UpToDate,
            Err(e) => r matches LegacyUpdateStatus::Error(m) && m@ == e@,
        },
{
    match result {
        Ok(Some(info)) => LegacyUpdateStatus::Available(info.version, info.download_url),
        Ok(None) => LegacyUpdateStatus::UpToDate,
        Err(e) => LegacyUpdateStatus::Error(text_of(e)),
    }
}

/// The button and label texts the first form shows for a status (`None` while idle or checking).
pub fn legacy_status_texts(status: &LegacyUpdateStatus) -> (r: Option<(String, String)>)
    ensures
        match *status {
            LegacyUpdateStatus::Available(v, _) => r matches Some((b, l)) && b@ == "Download and Restart"@
                && l@ == "New version "@ + v@ + " available!"@,
            LegacyUpdateStatus::UpToDate => r matches Some((b, l)) && b@ == "Check for Updates"@ && l@ == "You are up to date."@,
            LegacyUpdateStatus::Error(e) => r matches Some((b, l)) && b@ == "Check for Updates"@ && l@ == "Error: "@ + e@,
            _ => r is None,
        },
{
    match status {
        LegacyUpdateStatus::Available(v, _) => {
            let mut l = text_of_two("New version ", v.as_str());
            append_str(&mut l, " available!");
            Some((text_of("Download and Restart"), l))
        },
        LegacyUpdateStatus::UpToDate => Some((text_of("Check for Updates"), text_of("You are up to date."))),
        LegacyUpdateStatus::Error(e) => Some((text_of("Check for Updates"), text_of_two("Error: ", e.as_str()))),
        _ => None,
    }
}

/// The extensions that are skipped by default.
pub const DEFAULT_SKIP_EXTENSIONS: &'static str =
    "zip,7z,rar,gz,bz2,xz,zst,lz4,jpg,jpeg,png,gif,webp,avif,heic,mp4,mkv,avi,webm,mov,wmv,mp3,flac,aac,ogg,opus,wma,pdf";

/// The extension field's fixed buffer: the UTF-16 units of `s`, at most 511,
/// then NULs (512 units in all).
pub open spec fn extension_buffer(s: Seq<char>) -> Seq<u16> {
    let enc = crate::wide::utf16_encode(s);
    Seq::new(512, |i: int| if i < 511 && i < enc.len() { enc[i] } else { 0u16 })
}

/// Fills the extension field's buffer from the edited text.
pub fn fill_extension_buffer(s: &str) -> (r: [u16; 512])
    ensures
        r@ == extension_buffer(s@),
{
    let mut enc: Vec<u16> = Vec::new();
    crate::wide::push_str_units(&mut enc, s);
    assert(enc@ =~= crate::wide::utf16_encode(s@));
    let mut buf = [0u16; 512];
    let mut i: usize = 0;
    while i < 511 && i < enc.len()
        invariant
            enc@ == crate::wide::utf16_encode(s@),
            0 <= i <= 511,
            i <= enc@.len(),
            buf@.len() == 512,
            forall|j: int| 0 <= j < 512 ==> buf@[j] == if j < i { enc@[j] } else { 0u16 },
        decreases 511 - i,
    {
        buf[i] = enc[i];
        i += 1;
    }
    assert(buf@ =~= extension_buffer(s@));
    buf
}

/// The extension field's text from its buffer: decoded, NULs at either end removed.
pub fn extension_text(buf: &[u16; 512]) -> (r: String)
    ensures
        r@ == crate::window::trim_nuls(crate::wide::utf16_decode_lossy(buf@)),
{
    crate::updater::location_text(buf.as_slice())
}

} // verus!
