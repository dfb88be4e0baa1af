//! The main window's components as records of their control ids and window
//! handles (carried as integer values, 0 until the controls exist), with the
//! small computations their layout and list handling make.
use vstd::prelude::*;

verus! {

/// Control ids of the action bar.
#[derive(Clone, Copy, Debug)]
pub struct ActionPanelIds {
    pub btn_files: u16,
    pub btn_folder: u16,
    pub btn_remove: u16,
    pub btn_clear: u16,
    pub lbl_input: u16,
    pub combo_action_mode: u16,
    pub lbl_action_mode: u16,
    pub combo_algo: u16,
    pub lbl_algo: u16,
    pub chk_force: u16,
    pub lbl_accuracy: u16,
    pub btn_process: u16,
    pub btn_cancel: u16,
    pub btn_pause: u16,
}

/// The window handles of the action bar's controls.
#[derive(Clone, Copy, Debug)]
pub struct ActionPanelHandles {
    pub panel: isize,
    pub files: isize,
    pub folder: isize,
    pub remove: isize,
    pub clear: isize,
    pub lbl_input: isize,
    pub lbl_action_mode: isize,
    pub action_mode: isize,
    pub lbl_algo: isize,
    pub combo_algo: isize,
    pub force: isize,
    pub lbl_accuracy: isize,
    pub process: isize,
    pub cancel: isize,
    pub pause: isize,
}

/// The action bar at the bottom of the main window.
pub struct ActionPanel {
    handles: ActionPanelHandles,
    ids: ActionPanelIds,
}

impl ActionPanel {
    /// The handles the action bar has.
    pub closed spec fn handles_spec(&self) -> ActionPanelHandles {
        self.handles
    }

    /// The ids the action bar was made with.
    pub closed spec fn ids_spec(&self) -> ActionPanelIds {
        self.ids
    }

    /// An action bar whose controls do not exist yet (all handles 0).
    pub fn new(ids: ActionPanelIds) -> (r: Self)
        ensures
            r.ids_spec() == ids,
            r.handles_spec() == (ActionPanelHandles {
                panel: 0, files: 0, folder: 0, remove: 0, clear: 0, lbl_input: 0, lbl_action_mode: 0,
                action_mode: 0, lbl_algo: 0, combo_algo: 0, force: 0, lbl_accuracy: 0, process: 0,
                cancel: 0, pause: 0,
            }),
    {
        ActionPanel {
            handles: ActionPanelHandles {
                panel: 0, files: 0, folder: 0, remove: 0, clear: 0, lbl_input: 0, lbl_action_mode: 0,
                action_mode: 0, lbl_algo: 0, combo_algo: 0, force: 0, lbl_accuracy: 0, process: 0,
                cancel: 0, pause: 0,
            },
            ids,
        }
    }

    /// The ids the action bar was made with.
    pub fn ids(&self) -> (r: ActionPanelIds)
        ensures
            r == self.ids_spec(),
    {
        self.ids
    }

    /// Records the handles of the controls once they are created.
    pub fn attach(&mut self, handles: ActionPanelHandles)
        ensures
            final(self).handles_spec() == handles,
            final(self).ids_spec() == old(self).ids_spec(),
    {
        self.handles = handles;
    }

    pub fn hwnd(&self) -> (r: isize)
        ensures
            r == self.handles_spec().panel,
    {
        self.handles.panel
    }

    pub fn files_hwnd(&self) -> (r: isize)
        ensures
            r == self.handles_spec().files,
    {
        self.handles.files
    }

    pub fn folder_hwnd(&self) -> (r: isize)
        ensures
            r == self.handles_spec().folder,
    {
        self.handles.folder
    }

    pub fn remove_hwnd(&self) -> (r: isize)
        ensures
            r == self.handles_spec().remove,
    {
        self.handles.remove
    }

    pub fn clear_hwnd(&self) -> (r: isize)
        ensures
            r == self.handles_spec().clear,
    {
        self.handles.clear
    }

    pub fn action_mode_hwnd(&self) -> (r: isize)
        ensures
            r == self.handles_spec().action_mode,
    {
        self.handles.action_mode
    }

    pub fn combo_hwnd(&self) -> (r: isize)
        ensures
            r == self.handles_spec().combo_algo,
    {
        self.handles.combo_algo
    }

    pub fn force_hwnd(&self) -> (r: isize)
        ensures
            r == self.handles_spec().force,
    {
        self.handles.force
    }

    pub fn accuracy_hwnd(&self) -> (r: isize)
        ensures
            r == self.handles_spec().lbl_accuracy,
    {
        self.handles.lbl_accuracy
    }

    pub fn process_hwnd(&self) -> (r: isize)
        ensures
            r == self.handles_spec().process,
    {
        self.handles.process
    }

    pub fn cancel_hwnd(&self) -> (r: isize)
        ensures
            r == self.handles_spec().cancel,
    {
        self.handles.cancel
    }

    pub fn pause_hwnd(&self) -> (r: isize)
        ensures
            r == self.handles_spec().pause,
    {
        self.handles.pause
    }
}

/// Control ids of the header buttons.
#[derive(Clone, Copy, Debug)]
pub struct HeaderPanelIds {
    pub btn_settings: u16,
    pub btn_about: u16,
    pub btn_shortcuts: u16,
    pub btn_console: u16,
    pub btn_watcher: u16,
}

/// The window handles of the header buttons.
#[derive(Clone, Copy, Debug)]
pub struct HeaderPanelHandles {
    pub panel: isize,
    pub settings: isize,
    pub about: isize,
    pub shortcuts: isize,
    pub console: isize,
    pub watcher: isize,
}

/// The buttons in the top-right corner of the main window.
pub struct HeaderPanel {
    handles: HeaderPanelHandles,
    ids: HeaderPanelIds,
}

impl HeaderPanel {
    /// The handles the header has.
    pub closed spec fn handles_spec(&self) -> HeaderPanelHandles {
        self.handles
    }

    /// The ids the header was made with.
    pub closed spec fn ids_spec(&self) -> HeaderPanelIds {
        self.ids
    }

    /// A header whose buttons do not exist yet (all handles 0).
    pub fn new(ids: HeaderPanelIds) -> (r: Self)
        ensures
            r.ids_spec() == ids,
            r.handles_spec() == (HeaderPanelHandles { panel: 0, settings: 0, about: 0, shortcuts: 0, console: 0, watcher: 0 }),
    {
        HeaderPanel {
            handles: HeaderPanelHandles { panel: 0, settings: 0, about: 0, shortcuts: 0, console: 0, watcher: 0 },
            ids,
        }
    }

    /// The ids the header was made with.
    pub fn ids(&self) -> (r: HeaderPanelIds)
        ensures
            r == self.ids_spec(),
    {
        self.ids
    }

    /// Records the handles of the buttons once they are created.
    pub fn attach(&mut self, handles: HeaderPanelHandles)
        ensures
            final(self).handles_spec() == handles,
            final(self).ids_spec() == old(self).ids_spec(),
    {
        self.handles = handles;
    }

    pub fn hwnd(&self) -> (r: isize)
        ensures
            r == self.handles_spec().panel,
    {
        self.handles.panel
    }

    pub fn settings_hwnd(&self) -> (r: isize)
        ensures
            r == self.handles_spec().settings,
    {
        self.handles.settings
    }

    pub fn about_hwnd(&self) -> (r: isize)
        ensures
            r == self.handles_spec().about,
    {
        self.handles.about
    }

    pub fn shortcuts_hwnd(&self) -> (r: isize)
        ensures
            r == self.handles_spec().shortcuts,
    {
        self.handles.shortcuts
    }

    pub fn console_hwnd(&self) -> (r: isize)
        ensures
            r == self.handles_spec().console,
    {
        self.handles.console
    }

    pub fn watcher_hwnd(&self) -> (r: isize)
        ensures
            r == self.handles_spec().watcher,
    {
        self.handles.watcher
    }
}

/// Control ids of the search bar.
#[derive(Clone, Copy, Debug)]
pub struct SearchPanelIds {
    pub edit_search: u16,
    pub combo_filter_col: u16,
    pub combo_algo: u16,
    pub combo_size: u16,
    pub chk_case: u16,
    pub chk_regex: u16,
    pub lbl_results: u16,
    pub lbl_filter_by: u16,
    pub lbl_algo: u16,
    pub lbl_size: u16,
}

/// The window handles of the search bar's controls.
#[derive(Clone, Copy, Debug)]
pub struct SearchPanelHandles {
    pub panel: isize,
    pub search: isize,
    pub combo_filter_col: isize,
    pub combo_algo: isize,
    pub combo_size: isize,
    pub chk_case: isize,
    pub chk_regex: isize,
    pub lbl_results: isize,
    pub lbl_filter_by: isize,
    pub lbl_algo: isize,
    pub lbl_size: isize,
}

/// The search and filter bar above the file list.
pub struct SearchPanel {
    handles: SearchPanelHandles,
    ids: SearchPanelIds,
}

impl SearchPanel {
    /// The handles the search bar has.
    pub closed spec fn handles_spec(&self) -> SearchPanelHandles {
        self.handles
    }

    /// The ids the search bar was made with.
    pub closed spec fn ids_spec(&self) -> SearchPanelIds {
        self.ids
    }

    /// A search bar whose controls do not exist yet (all handles 0).
    pub fn new(ids: SearchPanelIds) -> (r: Self)
        ensures
            r.ids_spec() == ids,
            r.handles_spec() == (SearchPanelHandles {
                panel: 0, search: 0, combo_filter_col: 0, combo_algo: 0, combo_size: 0, chk_case: 0,
                chk_regex: 0, lbl_results: 0, lbl_filter_by: 0, lbl_algo: 0, lbl_size: 0,
            }),
    {
        SearchPanel {
            handles: SearchPanelHandles {
                panel: 0, search: 0, combo_filter_col: 0, combo_algo: 0, combo_size: 0, chk_case: 0,
                chk_regex: 0, lbl_results: 0, lbl_filter_by: 0, lbl_algo: 0, lbl_size: 0,
            },
            ids,
        }
    }

    /// The ids the search bar was made with.
    pub fn ids(&self) -> (r: SearchPanelIds)
        ensures
            r == self.ids_spec(),
    {
        self.ids
    }

    /// Records the handles of the controls once they are created.
    pub fn attach(&mut self, handles: SearchPanelHandles)
        ensures
            final(self).handles_spec() == handles,
            final(self).ids_spec() == old(self).ids_spec(),
    {
        self.handles = handles;
    }

    pub fn panel_hwnd(&self) -> (r: isize)
        ensures
            r == self.handles_spec().panel,
    {
        self.handles.panel
    }

    pub fn search_hwnd(&self) -> (r: isize)
        ensures
            r == self.handles_spec().search,
    {
        self.handles.search
    }

    pub fn filter_col_hwnd(&self) -> (r: isize)
        ensures
            r == self.handles_spec().combo_filter_col,
    {
        self.handles.combo_filter_col
    }

    pub fn algo_hwnd(&self) -> (r: isize)
        ensures
            r == self.handles_spec().combo_algo,
    {
        self.handles.combo_algo
    }

    pub fn size_hwnd(&self) -> (r: isize)
        ensures
            r == self.handles_spec().combo_size,
    {
        self.handles.combo_size
    }

    pub fn case_hwnd(&self) -> (r: isize)
        ensures
            r == self.handles_spec().chk_case,
    {
        self.handles.chk_case
    }

    pub fn regex_hwnd(&self) -> (r: isize)
        ensures
            r == self.handles_spec().chk_regex,
    {
        self.handles.chk_regex
    }

    pub fn results_hwnd(&self) -> (r: isize)
        ensures
            r == self.handles_spec().lbl_results,
    {
        self.handles.lbl_results
    }
}

/// Control ids of the status bar.
#[derive(Clone, Copy, Debug)]
pub struct StatusBarIds {
    pub label_id: u16,
    pub progress_id: u16,
}

/// The status line and progress bar at the bottom of the main window.
pub struct StatusBar {
    hwnd_label: isize,
    hwnd_progress: isize,
    label_id: u16,
    progress_id: u16,
}

impl StatusBar {
    /// The label's handle.
    pub closed spec fn label_spec(&self) -> isize {
        self.hwnd_label
    }

    /// The progress bar's handle.
    pub closed spec fn progress_spec(&self) -> isize {
        self.hwnd_progress
    }

    /// The ids (label, progress bar).
    pub closed spec fn ids_spec(&self) -> (u16, u16) {
        (self.label_id, self.progress_id)
    }

    /// A status bar whose controls do not exist yet.
    pub fn new(ids: StatusBarIds) -> (r: Self)
        ensures
            r.label_spec() == 0,
            r.progress_spec() == 0,
            r.ids_spec() == (ids.label_id, ids.progress_id),
    {
        StatusBar { hwnd_label: 0, hwnd_progress: 0, label_id: ids.label_id, progress_id: ids.progress_id }
    }

    /// The ids (label, progress bar).
    pub fn ids(&self) -> (r: (u16, u16))
        ensures
            r == self.ids_spec(),
    {
        (self.label_id, self.progress_id)
    }

    /// Records the handles once the controls are created.
    pub fn attach(&mut self, label: isize, progress: isize)
        ensures
            final(self).label_spec() == label,
            final(self).progress_spec() == progress,
            final(self).ids_spec() == old(self).ids_spec(),
    {
        self.hwnd_label = label;
        self.hwnd_progress = progress;
    }

    pub fn label_hwnd(&self) -> (r: isize)
        ensures
            r == self.label_spec(),
    {
        self.hwnd_label
    }

    pub fn progress_hwnd(&self) -> (r: isize)
        ensures
            r == self.progress_spec(),
    {
        self.hwnd_progress
    }
}

/// The file list and the label shown over it while it is empty.
pub struct FileListView {
    hwnd: isize,
    hwnd_empty_label: isize,
}

impl FileListView {
    /// The list's handle.
    pub closed spec fn hwnd_spec(&self) -> isize {
        self.hwnd
    }

    /// The empty-state label's handle.
    pub closed spec fn empty_label_spec(&self) -> isize {
        self.hwnd_empty_label
    }

    /// The record of a created list and its empty-state label.
    pub fn from_handles(hwnd: isize, empty_label: isize) -> (r: Self)
        ensures
            r.hwnd_spec() == hwnd,
            r.empty_label_spec() == empty_label,
    {
        FileListView { hwnd, hwnd_empty_label: empty_label }
    }

    pub fn hwnd(&self) -> (r: isize)
        ensures
            r == self.hwnd_spec(),
    {
        self.hwnd
    }

    pub fn empty_label_hwnd(&self) -> (r: isize)
        ensures
            r == self.empty_label_spec(),
    {
        self.hwnd_empty_label
    }
}

/// The controls of the main window.
pub struct Controls {
    pub file_list: FileListView,
    pub status_bar: StatusBar,
    pub action_panel: ActionPanel,
    pub header_panel: HeaderPanel,
    pub search_panel: SearchPanel,
}

/// The standard child panel (its window class and procedure are set up by the caller).
pub struct Panel;

/// The value of the theme property a panel keeps for its window procedure (2 dark, 1 light).
pub fn panel_theme_value(is_dark: bool) -> (r: isize)
    ensures
        r == (if is_dark { 2isize } else { 1isize }),
{
    if is_dark {
        2
    } else {
        1
    }
}

/// Column indices of the file list.
pub const COL_PATH: i32 = 0;
pub const COL_CURRENT: i32 = 1;
pub const COL_ALGORITHM: i32 = 2;
pub const COL_ACTION: i32 = 3;
pub const COL_SIZE: i32 = 4;
pub const COL_EST_SIZE: i32 = 5;
pub const COL_ON_DISK: i32 = 6;
pub const COL_RATIO: i32 = 7;
pub const COL_PROGRESS: i32 = 8;
pub const COL_STATUS: i32 = 9;
pub const COL_START: i32 = 10;

/// The number of columns of the file list.
pub const COLUMN_COUNT: usize = 11;

/// The initial width of file-list column `i`.
pub open spec fn column_width(i: int) -> i32 {
    if i == 0 {
        250
    } else if i == 1 || i == 2 || i == 3 {
        70
    } else if i == 4 || i == 5 || i == 6 {
        75
    } else if i == 7 {
        60
    } else if i == 8 {
        70
    } else if i == 9 {
        80
    } else {
        110
    }
}

/// The title and initial width of file-list column `i` (`i < 11`).
pub fn column_def(i: usize) -> (r: (&'static str, i32))
    requires
        i < COLUMN_COUNT,
    ensures
        r.1 == column_width(i as int),
{
    if i == 0 {
        ("Path", 250)
    } else if i == 1 {
        ("Current", 70)
    } else if i == 2 {
        ("Algorithm", 70)
    } else if i == 3 {
        ("Action", 70)
    } else if i == 4 {
        ("Size", 75)
    } else if i == 5 {
        ("Est. Size", 75)
    } else if i == 6 {
        ("On Disk", 75)
    } else if i == 7 {
        ("Ratio", 60)
    } else if i == 8 {
        ("Progress", 70)
    } else if i == 9 {
        ("Status", 80)
    } else {
        ("\u{25B6} Start", 110)
    }
}

/// `HDF_SORTDOWN`.
pub const HDF_SORTDOWN: i32 = 0x0200;
/// `HDF_SORTUP`.
pub const HDF_SORTUP: i32 = 0x0400;

/// The header format of column `i` when the list is sorted by `sorted_column`:
/// the sort arrows cleared, and the arrow of the sort direction on the sorted column.
pub fn header_sort_format(fmt: i32, i: i32, sorted_column: i32, ascending: bool) -> (r: i32)
    ensures
        r == (if i == sorted_column {
            (fmt & !(HDF_SORTUP | HDF_SORTDOWN)) | (if ascending { HDF_SORTUP } else { HDF_SORTDOWN })
        } else {
            fmt & !(HDF_SORTUP | HDF_SORTDOWN)
        }),
{
    let cleared = fmt & !(HDF_SORTUP | HDF_SORTDOWN);
    if i == sorted_column {
        cleared | (if ascending { HDF_SORTUP } else { HDF_SORTDOWN })
    } else {
        cleared
    }
}

/// The sum of the positive widths.
pub open spec fn positive_sum(ws: Seq<i32>) -> int
    decreases ws.len(),
{
    if ws.len() == 0 {
        0
    } else {
        positive_sum(ws.drop_last()) + if ws.last() > 0 { ws.last() as int } else { 0 }
    }
}

proof fn lemma_positive_sum_grows(ws: Seq<i32>, i: int)
    requires
        0 <= i <= ws.len(),
    ensures
        0 <= positive_sum(ws.take(i)) <= positive_sum(ws),
    decreases ws.len() - i,
{
    if i < ws.len() {
        lemma_positive_sum_grows(ws, i + 1);
        assert(ws.take(i + 1).drop_last() =~= ws.take(i));
        assert(ws.take(i + 1).last() == ws[i]);
        lemma_positive_sum_nonneg(ws.take(i));
    } else {
        assert(ws.take(i) =~= ws);
        lemma_positive_sum_nonneg(ws);
    }
}

proof fn lemma_positive_sum_nonneg(ws: Seq<i32>)
    ensures
        positive_sum(ws) >= 0,
    decreases ws.len(),
{
    if ws.len() > 0 {
        lemma_positive_sum_nonneg(ws.drop_last());
    }
}

/// The width of the path column: what the list's inner width leaves after the
/// other columns (their positive widths), but at least 100.
pub fn path_column_width(other_widths: &[i32], inner_width: i32) -> (r: i32)
    requires
        positive_sum(other_widths@) <= i32::MAX,
        inner_width - positive_sum(other_widths@) >= i32::MIN,
    ensures
        r == (if inner_width - positive_sum(other_widths@) < 100 { 100 } else { inner_width - positive_sum(other_widths@) }),
{
    let mut occupied: i32 = 0;
    let mut i: usize = 0;
    assert(other_widths@.take(0) =~= Seq::<i32>::empty());
    while i < other_widths.len()
        invariant
            0 <= i <= other_widths@.len(),
            positive_sum(other_widths@) <= i32::MAX,
            occupied == positive_sum(other_widths@.take(i as int)),
        decreases other_widths@.len() - i,
    {
        proof {
            lemma_positive_sum_grows(other_widths@, i + 1);
            assert(other_widths@.take(i + 1).drop_last() =~= other_widths@.take(i as int));
        }
        let w = other_widths[i];
        if w > 0 {
            occupied = occupied + w;
        }
        i += 1;
    }
    assert(other_widths@.take(other_widths@.len() as int) =~= other_widths@);
    proof {
        lemma_positive_sum_nonneg(other_widths@);
    }
    let width = inner_width - occupied;
    if width < 100 {
        100
    } else {
        width
    }
}

/// Whether the empty-state label shows: only while the list has no items.
pub fn empty_label_visible(item_count: i32) -> (r: bool)
    ensures
        r == (item_count == 0),
{
    item_count == 0
}

/// Rust's `/` on integers: the quotient rounded toward zero.
pub open spec fn trunc_div(a: int, b: int) -> int {
    if a >= 0 {
        a / b
    } else {
        -((-a) / b)
    }
}

/// The top-left corner that centres a box of `w` by `h` in the rectangle at
/// (`left`, `top`) of `width` by `height`.
pub fn centered_origin(left: i32, top: i32, width: i32, height: i32, w: i32, h: i32) -> (r: (i32, i32))
    requires
        i32::MIN <= width - w <= i32::MAX,
        i32::MIN <= height - h <= i32::MAX,
        i32::MIN <= left + trunc_div(width - w, 2) <= i32::MAX,
        i32::MIN <= top + trunc_div(height - h, 2) <= i32::MAX,
    ensures
        r.0 == left + trunc_div(width - w, 2),
        r.1 == top + trunc_div(height - h, 2),
{
    (left + (width - w) / 2, top + (height - h) / 2)
}

} // verus!
