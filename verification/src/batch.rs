//! The application state that the main window keeps: the batch items, the
//! rows the list shows, the processing queue and the settings the window
//! holds while it runs.
use vstd::prelude::*;
use crate::state::{BatchItem, BatchAction, SearchState, ProcessingState, AppTheme, FilterColumn, is_new_item};
use crate::wof::WofAlgorithm;
use crate::logger::LogEntry;

verus! {

/// Application state.
pub struct AppState {
    pub batch_items: Vec<BatchItem>,
    /// Maps a list row to an index into `batch_items`.
    pub filtered_items: Vec<usize>,
    /// Indices of items waiting for their turn to be processed.
    pub processing_queue: Vec<usize>,
    pub search_state: SearchState,
    pub next_item_id: u32,
    /// State of the current processing run.
    pub global_state: ProcessingState,
    pub theme: AppTheme,
    /// Log entries kept for the console (at most `MAX_LOG_ENTRIES`).
    pub logs: Vec<LogEntry>,
    pub force_compress: bool,
    pub enable_force_stop: bool,
    pub low_power_mode: bool,
    /// Column the list is sorted by, or -1 when unsorted.
    pub sort_column: i32,
    pub sort_ascending: bool,
    /// Whether items handed over by another instance are still arriving.
    pub ipc_active: bool,
    pub pending_ipc_ids: Vec<u32>,
    /// Process for which a "file is locked" prompt is open.
    pub active_lock_dialog: Option<String>,
    /// Processes the user chose not to stop.
    /// Each name at most once (see `names_distinct`): a set of names.
    pub ignored_lock_processes: Vec<String>,
}

pub const MAX_LOG_ENTRIES: usize = 1000;

/// Item ids are unique and all below the next id to hand out.
pub open spec fn ids_valid(items: Seq<BatchItem>, next_id: u32) -> bool {
    &&& forall|i: int, j: int| 0 <= i < j < items.len() ==> items[i].id != items[j].id
    &&& forall|i: int| 0 <= i < items.len() ==> items[i].id < next_id
}

/// Position of the first item with the given id, or -1.
pub open spec fn index_of_id(items: Seq<BatchItem>, id: u32) -> int
    decreases items.len(),
{
    if items.len() == 0 {
        -1
    } else if index_of_id(items.drop_last(), id) >= 0 {
        index_of_id(items.drop_last(), id)
    } else if items.last().id == id {
        items.len() - 1
    } else {
        -1
    }
}

pub proof fn lemma_index_of_id(items: Seq<BatchItem>, id: u32)
    ensures
        -1 <= index_of_id(items, id) < items.len(),
        index_of_id(items, id) >= 0 ==> items[index_of_id(items, id)].id == id,
        index_of_id(items, id) >= 0 ==> forall|k: int| 0 <= k < index_of_id(items, id) ==> items[k].id != id,
        index_of_id(items, id) == -1 <==> forall|k: int| 0 <= k < items.len() ==> items[k].id != id,
    decreases items.len(),
{
    if items.len() > 0 {
        let d = items.drop_last();
        lemma_index_of_id(d, id);
        assert forall|k: int| 0 <= k < d.len() implies d[k] == items[k] by {}
    }
}

/// The first row of `rows` that shows an item with the given id.
pub open spec fn row_of_id(rows: Seq<usize>, items: Seq<BatchItem>, id: u32) -> int
    decreases rows.len(),
{
    if rows.len() == 0 {
        -1
    } else if row_of_id(rows.drop_last(), items, id) >= 0 {
        row_of_id(rows.drop_last(), items, id)
    } else if rows.last() < items.len() && items[rows.last() as int].id == id {
        rows.len() - 1
    } else {
        -1
    }
}

pub proof fn lemma_row_of_id(rows: Seq<usize>, items: Seq<BatchItem>, id: u32)
    ensures
        -1 <= row_of_id(rows, items, id) < rows.len(),
        row_of_id(rows, items, id) >= 0 ==> ({
            let r = row_of_id(rows, items, id);
            rows[r] < items.len() && items[rows[r] as int].id == id
        }),
        forall|k: int| 0 <= k < rows.len() && (row_of_id(rows, items, id) == -1 || k < row_of_id(rows, items, id))
            ==> !(rows[k] < items.len() && items[rows[k] as int].id == id),
    decreases rows.len(),
{
    if rows.len() > 0 {
        let d = rows.drop_last();
        lemma_row_of_id(d, items, id);
        assert forall|k: int| 0 <= k < d.len() implies d[k] == rows[k] by {}
    }
}

/// Everything but the batch items and the next id is as before.
pub open spec fn same_but_items(a: AppState, b: AppState) -> bool {
    &&& a.filtered_items == b.filtered_items
    &&& a.processing_queue == b.processing_queue
    &&& a.search_state == b.search_state
    &&& a.global_state == b.global_state
    &&& a.theme == b.theme
    &&& a.logs == b.logs
    &&& a.force_compress == b.force_compress
    &&& a.enable_force_stop == b.enable_force_stop
    &&& a.low_power_mode == b.low_power_mode
    &&& a.sort_column == b.sort_column
    &&& a.sort_ascending == b.sort_ascending
    &&& a.ipc_active == b.ipc_active
    &&& a.pending_ipc_ids == b.pending_ipc_ids
    &&& a.active_lock_dialog == b.active_lock_dialog
    &&& a.ignored_lock_processes == b.ignored_lock_processes
}

/// `b` is `a` with one field of one item changed.
pub open spec fn item_updated(a: BatchItem, b: BatchItem, algorithm: WofAlgorithm, action: BatchAction) -> bool {
    &&& b.id == a.id
    &&& b.path == a.path
    &&& b.path_lower == a.path_lower
    &&& b.algorithm == algorithm
    &&& b.action == action
    &&& b.status == a.status
    &&& b.status_override == a.status_override
    &&& b.final_state == a.final_state
    &&& b.progress == a.progress
    &&& b.logical_size == a.logical_size
    &&& b.disk_size == a.disk_size
    &&& b.estimated_size == a.estimated_size
    &&& b.estimation_cache == a.estimation_cache
}

impl AppState {
    pub open spec fn wf(&self) -> bool {
        ids_valid(self.batch_items@, self.next_item_id)
    }

    /// A fresh state: no items, nothing queued, ids starting at 1, unsorted
    /// list; the theme and the three switches come from the saved settings.
    pub fn new(theme: AppTheme, force_compress: bool, enable_force_stop: bool, low_power_mode: bool) -> (r: Self)
        ensures
            r.wf(),
            r.batch_items@.len() == 0,
            r.filtered_items@.len() == 0,
            r.processing_queue@.len() == 0,
            r.next_item_id == 1,
            r.global_state == ProcessingState::Idle,
            r.theme == theme,
            r.logs@.len() == 0,
            r.force_compress == force_compress,
            r.enable_force_stop == enable_force_stop,
            r.low_power_mode == low_power_mode,
            r.sort_column == -1,
            r.sort_ascending,
            !r.ipc_active,
            r.pending_ipc_ids@.len() == 0,
            r.active_lock_dialog is None,
            r.ignored_lock_processes@.len() == 0,
            r.search_state.text@.len() == 0,
            r.search_state.filter_column == FilterColumn::Path,
            r.search_state.algorithm_filter is None,
            r.search_state.size_filter == 0,
            !r.search_state.use_regex,
            !r.search_state.case_sensitive,
    {
        AppState {
            batch_items: Vec::new(),
            filtered_items: Vec::new(),
            processing_queue: Vec::new(),
            search_state: SearchState::default(),
            next_item_id: 1,
            global_state: ProcessingState::Idle,
            theme,
            logs: Vec::new(),
            force_compress,
            enable_force_stop,
            low_power_mode,
            sort_column: -1,
            sort_ascending: true,
            ipc_active: false,
            pending_ipc_ids: Vec::new(),
            active_lock_dialog: None,
            ignored_lock_processes: Vec::new(),
        }
    }

    /// Position of the item with the given id in `batch_items`.
    pub fn find_item_index(&self, id: u32) -> (r: Option<usize>)
        ensures
            r is None <==> index_of_id(self.batch_items@, id) == -1,
            r matches Some(i) ==> i == index_of_id(self.batch_items@, id),
    {
        proof { lemma_index_of_id(self.batch_items@, id); }
        let n = self.batch_items.len();
        let mut i: usize = 0;
        while i < n
            invariant
                n == self.batch_items@.len(),
                0 <= i <= n,
                forall|k: int| 0 <= k < i ==> self.batch_items@[k].id != id,
                -1 <= index_of_id(self.batch_items@, id) < n,
                index_of_id(self.batch_items@, id) >= 0 ==> self.batch_items@[index_of_id(self.batch_items@, id)].id == id,
                index_of_id(self.batch_items@, id) >= 0 ==> forall|k: int| 0 <= k < index_of_id(self.batch_items@, id) ==> self.batch_items@[k].id != id,
                index_of_id(self.batch_items@, id) == -1 <==> forall|k: int| 0 <= k < n ==> self.batch_items@[k].id != id,
            decreases n - i,
        {
            if self.batch_items[i].id == id {
                return Some(i);
            }
            i += 1;
        }
        None
    }

    /// The list row that shows the item with the given id.
    pub fn find_ui_row_by_id(&self, id: u32) -> (r: Option<i32>)
        ensures
            r is None <==> row_of_id(self.filtered_items@, self.batch_items@, id) == -1,
            r matches Some(p) ==> p == row_of_id(self.filtered_items@, self.batch_items@, id) as i32,
    {
        proof { lemma_row_of_id(self.filtered_items@, self.batch_items@, id); }
        let rows = &self.filtered_items;
        let n = rows.len();
        let mut k: usize = 0;
        while k < n
            invariant
                n == rows@.len(),
                rows == &self.filtered_items,
                0 <= k <= n,
                forall|j: int| 0 <= j < k ==> !(rows@[j] < self.batch_items@.len() && self.batch_items@[rows@[j] as int].id == id),
                -1 <= row_of_id(rows@, self.batch_items@, id) < n,
                row_of_id(rows@, self.batch_items@, id) >= 0 ==> ({
                    let r = row_of_id(rows@, self.batch_items@, id);
                    rows@[r] < self.batch_items@.len() && self.batch_items@[rows@[r] as int].id == id
                }),
                forall|j: int| 0 <= j < n && (row_of_id(rows@, self.batch_items@, id) == -1 || j < row_of_id(rows@, self.batch_items@, id))
                    ==> !(rows@[j] < self.batch_items@.len() && self.batch_items@[rows@[j] as int].id == id),
            decreases n - k,
        {
            let idx = rows[k];
            if idx < self.batch_items.len() && self.batch_items[idx].id == id {
                return Some(k as i32);
            }
            k += 1;
        }
        None
    }

    /// Adds a new item for `path` and returns its id.
    pub fn add_batch_item(&mut self, path: String) -> (id: u32)
        requires
            old(self).next_item_id < u32::MAX,
        ensures
            id == old(self).next_item_id,
            final(self).next_item_id == old(self).next_item_id + 1,
            final(self).batch_items@.len() == old(self).batch_items@.len() + 1,
            final(self).batch_items@.drop_last() == old(self).batch_items@,
            is_new_item(final(self).batch_items@.last(), id, path@),
            old(self).wf() ==> final(self).wf(),
            same_but_items(*old(self), *final(self)),
    {
        let id = self.next_item_id;
        self.next_item_id += 1;
        self.batch_items.push(BatchItem::new(id, path));
        assert(self.batch_items@.drop_last() =~= old(self).batch_items@);
        id
    }

    /// Removes the item with the given id; tells whether there was one.
    pub fn remove_batch_item(&mut self, id: u32) -> (r: bool)
        ensures
            r == (index_of_id(old(self).batch_items@, id) >= 0),
            r ==> final(self).batch_items@ == old(self).batch_items@.remove(index_of_id(old(self).batch_items@, id)),
            !r ==> final(self).batch_items@ == old(self).batch_items@,
            same_but_items(*old(self), *final(self)),
            final(self).next_item_id == old(self).next_item_id,
            old(self).wf() ==> final(self).wf(),
    {
        match self.find_item_index(id) {
            Some(pos) => {
                proof { lemma_index_of_id(self.batch_items@, id); }
                self.batch_items.remove(pos);
                true
            },
            None => false,
        }
    }

    /// The item with the given id, to change in place.
    pub fn get_batch_item_mut(&mut self, id: u32) -> (r: Option<&mut BatchItem>)
        ensures
            index_of_id(old(self).batch_items@, id) == -1 ==> r is None && *final(self) == *old(self),
            index_of_id(old(self).batch_items@, id) >= 0 ==> ({
                let k = index_of_id(old(self).batch_items@, id);
                &&& r matches Some(e)
                &&& *e == old(self).batch_items@[k]
                &&& final(self).batch_items@ == old(self).batch_items@.update(k, *final(e))
                &&& same_but_items(*old(self), *final(self))
                &&& final(self).next_item_id == old(self).next_item_id
            }),
    {
        match self.find_item_index(id) {
            Some(pos) => {
                proof { lemma_index_of_id(old(self).batch_items@, id); }
                Some(&mut self.batch_items[pos])
            },
            None => None,
        }
    }

    /// Sets the algorithm of the item with the given id, if there is one.
    pub fn set_item_algorithm(&mut self, id: u32, algorithm: WofAlgorithm)
        ensures
            same_but_items(*old(self), *final(self)),
            final(self).next_item_id == old(self).next_item_id,
            final(self).batch_items@.len() == old(self).batch_items@.len(),
            forall|k: int| 0 <= k < old(self).batch_items@.len() && k != index_of_id(old(self).batch_items@, id)
                ==> final(self).batch_items@[k] == old(self).batch_items@[k],
            index_of_id(old(self).batch_items@, id) >= 0 ==> ({
                let k = index_of_id(old(self).batch_items@, id);
                item_updated(old(self).batch_items@[k], final(self).batch_items@[k], algorithm, old(self).batch_items@[k].action)
            }),
            old(self).wf() ==> final(self).wf(),
    {
        match self.find_item_index(id) {
            Some(pos) => {
                proof { lemma_index_of_id(old(self).batch_items@, id); }
                self.batch_items[pos].algorithm = algorithm;
            },
            None => {},
        }
    }

    /// Sets the action of the item with the given id, if there is one.
    pub fn set_item_action(&mut self, id: u32, action: BatchAction)
        ensures
            same_but_items(*old(self), *final(self)),
            final(self).next_item_id == old(self).next_item_id,
            final(self).batch_items@.len() == old(self).batch_items@.len(),
            forall|k: int| 0 <= k < old(self).batch_items@.len() && k != index_of_id(old(self).batch_items@, id)
                ==> final(self).batch_items@[k] == old(self).batch_items@[k],
            index_of_id(old(self).batch_items@, id) >= 0 ==> ({
                let k = index_of_id(old(self).batch_items@, id);
                item_updated(old(self).batch_items@[k], final(self).batch_items@[k], old(self).batch_items@[k].algorithm, action)
            }),
            old(self).wf() ==> final(self).wf(),
    {
        match self.find_item_index(id) {
            Some(pos) => {
                proof { lemma_index_of_id(old(self).batch_items@, id); }
                self.batch_items[pos].action = action;
            },
            None => {},
        }
    }

    /// Clears all batch items and the rows that showed them.
    pub fn clear_batch(&mut self)
        ensures
            final(self).batch_items@.len() == 0,
            final(self).filtered_items@.len() == 0,
            final(self).next_item_id == old(self).next_item_id,
            final(self).processing_queue == old(self).processing_queue,
            final(self).wf(),
            final(self).search_state == old(self).search_state,
            final(self).global_state == old(self).global_state,
            final(self).theme == old(self).theme,
            final(self).logs == old(self).logs,
            final(self).sort_column == old(self).sort_column,
            final(self).sort_ascending == old(self).sort_ascending,
            final(self).pending_ipc_ids == old(self).pending_ipc_ids,
            final(self).ipc_active == old(self).ipc_active,
            final(self).force_compress == old(self).force_compress,
            final(self).enable_force_stop == old(self).enable_force_stop,
            final(self).low_power_mode == old(self).low_power_mode,
            final(self).active_lock_dialog == old(self).active_lock_dialog,
            final(self).ignored_lock_processes == old(self).ignored_lock_processes,
    {
        self.batch_items.clear();
        self.filtered_items.clear();
    }
}

} // verus!
