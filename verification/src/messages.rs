//! What the main window does with the messages that worker threads send it:
//! each message changes the state and tells the window what to show.
use vstd::prelude::*;
use crate::batch::{AppState, MAX_LOG_ENTRIES, index_of_id, lemma_index_of_id, row_of_id, ids_valid};
use crate::state::{BatchItem, BatchStatus, ProcessingState, cached_estimate};
use crate::wof::{WofAlgorithm, CompressionState, algorithm_code};
use crate::logger::{LogEntry, LogLevel};
use crate::wide::{utf16_encode, decimal, decimal_chars, wz, push_str_units, push_decimal, push_decimal_chars,
    to_wstring, fmt_progress};
use vstd::string::StringExecFns;

verus! {

/// Message types for UI updates
pub enum UiMessage {
    /// Global progress: current, total
    Progress(u64, u64),
    /// Individual item status update
    BatchItemStatus(u32, BatchStatus),
    /// Individual item progress (id, current, total)
    BatchItemProgress(u32, u64, u64),
    /// Row progress: (id, current, total, bytes_processed)
    RowProgress(u32, u64, u64, u64),
    /// Incremental scan progress: (id, logical_size, disk_size, file_count)
    ScanProgress(u32, u64, u64, u64),
    Log(LogEntry),
    /// Status text message (UTF-16)
    StatusText(Vec<u16>),
    Finished,
    /// Single item finished: (id, final_size_bytes, total_count, final_state)
    RowFinished(u32, u64, u64, CompressionState),
    /// Item analyzed (id, logical_size, disk_size, compression_state)
    BatchItemAnalyzed(u32, u64, u64, CompressionState),
    /// Estimated size update: (id, algorithm, estimated_size)
    UpdateEstimate(u32, WofAlgorithm, u64),
    /// Watcher triggered processing: (path, algorithm)
    WatcherTrigger(String, WofAlgorithm),
}

/// What the window has to show after a message was taken in.
pub enum UiEffect {
    Nothing,
    /// Move the progress bar and the taskbar to `current` of `total`; show `text`.
    ShowProgress { current: u64, total: u64, text: Vec<u16> },
    /// Show the text in the status bar.
    SetStatus(Vec<u16>),
    /// A log entry was kept; for an error, show `error_text` and mark the taskbar.
    Logged { error_text: Option<Vec<u16>> },
    /// Start the next batch of queued items; show `queued_text` if items remain queued.
    StartBatch { indices: Vec<usize>, queued_text: Option<Vec<u16>> },
    /// The run is over: reset the taskbar, disable Cancel, redraw, refresh the buttons.
    RunFinished,
    /// Redraw `row`; show `status_text` if any; refresh the buttons if asked.
    RowChanged { row: Option<i32>, status_text: Option<Vec<u16>>, refresh_buttons: bool },
    /// An item for a watched folder was added: start processing it at `row`.
    WatcherItemAdded { id: u32, row: Option<i32> },
    /// An estimate arrived: redraw `row` and recompute the accuracy label.
    EstimateChanged { row: Option<i32> },
}

/// The status shown while a folder is scanned.
pub open spec fn scan_override(state: ProcessingState, count: u64) -> Seq<char> {
    if state == ProcessingState::Stopped {
        "Cancelled"@
    } else if state == ProcessingState::Paused {
        "Paused"@
    } else {
        "Scanning... "@ + decimal_chars(count as nat)
    }
}

/// The logs after keeping one more entry: the oldest entry goes when there are too many.
pub open spec fn logs_after(logs: Seq<LogEntry>, e: LogEntry) -> Seq<LogEntry> {
    if logs.len() + 1 > MAX_LOG_ENTRIES {
        logs.push(e).drop_first()
    } else {
        logs.push(e)
    }
}

/// How many queued items start next: at most `max` of them, all when `max` is 0.
pub open spec fn batch_take(queue_len: int, max: u32) -> int {
    if max > 0 && queue_len > max {
        max as int
    } else {
        queue_len
    }
}

/// Everything but the batch items, the rows, the next id and the logs is as before.
pub open spec fn same_settings(a: AppState, b: AppState) -> bool {
    &&& a.search_state == b.search_state
    &&& a.theme == b.theme
    &&& a.force_compress == b.force_compress
    &&& a.enable_force_stop == b.enable_force_stop
    &&& a.low_power_mode == b.low_power_mode
    &&& a.sort_column == b.sort_column
    &&& a.sort_ascending == b.sort_ascending
    &&& a.ipc_active == b.ipc_active
    &&& a.pending_ipc_ids == b.pending_ipc_ids
    &&& a.active_lock_dialog == b.active_lock_dialog
    &&& a.ignored_lock_processes == b.ignored_lock_processes
}

fn find_index(items: &Vec<BatchItem>, id: u32) -> (r: Option<usize>)
    ensures
        r is None <==> index_of_id(items@, id) == -1,
        r matches Some(i) ==> i == index_of_id(items@, id) && i < items@.len() && items@[i as int].id == id,
{
    proof { lemma_index_of_id(items@, id); }
    let n = items.len();
    let mut i: usize = 0;
    while i < n
        invariant
            n == items@.len(),
            0 <= i <= n,
            forall|k: int| 0 <= k < i ==> items@[k].id != id,
            -1 <= index_of_id(items@, id) < n,
            index_of_id(items@, id) >= 0 ==> items@[index_of_id(items@, id)].id == id,
            index_of_id(items@, id) >= 0 ==> forall|k: int| 0 <= k < index_of_id(items@, id) ==> items@[k].id != id,
            index_of_id(items@, id) == -1 <==> forall|k: int| 0 <= k < n ==> items@[k].id != id,
        decreases n - i,
    {
        if items[i].id == id {
            return Some(i);
        }
        i += 1;
    }
    None
}

impl AppState {
    /// Keeps a log entry, dropping the oldest one beyond `MAX_LOG_ENTRIES`.
    pub fn push_log(&mut self, entry: LogEntry)
        ensures
            final(self).logs@ == logs_after(old(self).logs@, entry),
            old(self).logs@.len() <= MAX_LOG_ENTRIES ==> final(self).logs@.len() <= MAX_LOG_ENTRIES,
            final(self).batch_items == old(self).batch_items,
            final(self).filtered_items == old(self).filtered_items,
            final(self).processing_queue == old(self).processing_queue,
            final(self).next_item_id == old(self).next_item_id,
            final(self).global_state == old(self).global_state,
            same_settings(*old(self), *final(self)),
    {
        self.logs.push(entry);
        if self.logs.len() > MAX_LOG_ENTRIES {
            self.logs.remove(0);
            assert(self.logs@ =~= old(self).logs@.push(entry).drop_first());
        }
    }

    /// Hands out the next queued items when a batch finished, or ends the run
    /// when nothing is queued.
    pub fn take_next_batch(&mut self, max_concurrent: u32) -> (r: Option<Vec<usize>>)
        ensures
            old(self).processing_queue@.len() == 0 ==> r is None && final(self).global_state == ProcessingState::Idle
                && final(self).processing_queue@.len() == 0,
            old(self).processing_queue@.len() > 0 ==> ({
                let k = batch_take(old(self).processing_queue@.len() as int, max_concurrent);
                &&& r matches Some(v) && v@ == old(self).processing_queue@.take(k)
                &&& final(self).processing_queue@ == old(self).processing_queue@.skip(k)
                &&& final(self).global_state == old(self).global_state
            }),
            final(self).batch_items == old(self).batch_items,
            final(self).filtered_items == old(self).filtered_items,
            final(self).next_item_id == old(self).next_item_id,
            final(self).logs == old(self).logs,
            same_settings(*old(self), *final(self)),
    {
        let len = self.processing_queue.len();
        if len == 0 {
            self.global_state = ProcessingState::Idle;
            return None;
        }
        let k: usize = if max_concurrent > 0 && len > max_concurrent as usize { max_concurrent as usize } else { len };
        let mut first = self.processing_queue.split_off(0);
        let rest = first.split_off(k);
        self.processing_queue = rest;
        assert(first@ =~= old(self).processing_queue@.take(k as int));
        assert(self.processing_queue@ =~= old(self).processing_queue@.skip(k as int));
        Some(first)
    }

    /// Takes in one message from a worker thread.
    #[verifier::rlimit(40)]
    pub fn process_ui_message(&mut self, msg: UiMessage, max_concurrent: u32) -> (r: UiEffect)
        requires
            old(self).next_item_id < u32::MAX,
            old(self).wf(),
        ensures
            final(self).wf(),
            final(self).processing_queue@.len() <= old(self).processing_queue@.len(),
            match msg {
                UiMessage::Progress(cur, total) => {
                    &&& r matches UiEffect::ShowProgress { current, total: t, text }
                    &&& current == cur && t == total
                    &&& text@ == (utf16_encode("Processed "@) + decimal(cur as nat) + utf16_encode(" / "@)
                        + decimal(total as nat)).push(0u16)
                    &&& final(self).batch_items == old(self).batch_items
                },
                UiMessage::StatusText(t) => {
                    &&& r matches UiEffect::SetStatus(text) && text == t
                    &&& final(self).batch_items == old(self).batch_items
                },
                UiMessage::Log(e) => {
                    &&& final(self).logs@ == logs_after(old(self).logs@, e)
                    &&& r matches UiEffect::Logged { error_text }
                    &&& (e.level == LogLevel::Error) == (error_text is Some)
                    &&& (error_text matches Some(t) ==> t@ == wz(e.message@))
                    &&& final(self).batch_items == old(self).batch_items
                },
                UiMessage::Finished => {
                    if old(self).processing_queue@.len() == 0 {
                        &&& r is RunFinished
                        &&& final(self).global_state == ProcessingState::Idle
                    } else {
                        let k = batch_take(old(self).processing_queue@.len() as int, max_concurrent);
                        let left = old(self).processing_queue@.len() - k;
                        &&& r matches UiEffect::StartBatch { indices, queued_text }
                        &&& indices@ == old(self).processing_queue@.take(k)
                        &&& final(self).processing_queue@ == old(self).processing_queue@.skip(k)
                        &&& (left > 0 <==> queued_text is Some)
                        &&& (queued_text matches Some(t) ==> t@ == (utf16_encode("Processing... ("@)
                            + decimal(left as nat) + utf16_encode(" queued)"@)).push(0u16))
                    }
                },
                UiMessage::ScanProgress(id, logical, disk, count) => {
                    let k = index_of_id(old(self).batch_items@, id);
                    if k >= 0 {
                        let it = final(self).batch_items@[k];
                        &&& final(self).batch_items@ == old(self).batch_items@.update(k, it)
                        &&& it.logical_size == logical && it.disk_size == disk
                        &&& it.status_override matches Some(s) && s@ == scan_override(old(self).global_state, count)
                        &&& it.id == id && it.path == old(self).batch_items@[k].path
                        &&& r matches UiEffect::RowChanged { row, status_text, refresh_buttons }
                        &&& !refresh_buttons
                        &&& (row is None <==> row_of_id(old(self).filtered_items@, final(self).batch_items@, id) == -1)
                        &&& (row matches Some(p) ==> p == row_of_id(old(self).filtered_items@, final(self).batch_items@, id) as i32)
                        &&& status_text matches Some(t) && t@ == (utf16_encode("Scanning: "@)
                            + utf16_encode(it.path@) + utf16_encode("... ("@) + decimal(count as nat)
                            + utf16_encode(" files)"@)).push(0u16)
                    } else {
                        &&& r is Nothing
                        &&& final(self).batch_items == old(self).batch_items
                    }
                },
                UiMessage::RowProgress(id, cur, tot, bytes) => {
                    let k = index_of_id(old(self).batch_items@, id);
                    &&& r matches UiEffect::RowChanged { row, status_text, refresh_buttons }
                    &&& status_text is None && !refresh_buttons
                    &&& (row is None <==> row_of_id(old(self).filtered_items@, old(self).batch_items@, id) == -1)
                    &&& (row matches Some(p) ==> p == row_of_id(old(self).filtered_items@, old(self).batch_items@, id) as i32)
                    &&& (k >= 0 ==> {
                        let it = final(self).batch_items@[k];
                        let o = old(self).batch_items@[k];
                        &&& final(self).batch_items@ == old(self).batch_items@.update(k, it)
                        &&& it.progress == (cur, tot)
                        &&& it.disk_size == (if bytes > 0 { bytes } else { o.disk_size })
                        &&& it.status_override is None
                        &&& it.status is Processing
                        &&& it.id == o.id && it.path == o.path && it.logical_size == o.logical_size
                    })
                    &&& (k < 0 ==> final(self).batch_items == old(self).batch_items)
                },
                UiMessage::RowFinished(id, bytes, count, state) => {
                    let k = index_of_id(old(self).batch_items@, id);
                    &&& r matches UiEffect::RowChanged { row, status_text, refresh_buttons }
                    &&& status_text is None && refresh_buttons
                    &&& (row is None <==> row_of_id(old(self).filtered_items@, old(self).batch_items@, id) == -1)
                    &&& (row matches Some(p) ==> p == row_of_id(old(self).filtered_items@, old(self).batch_items@, id) as i32)
                    &&& (k >= 0 ==> {
                        let it = final(self).batch_items@[k];
                        let o = old(self).batch_items@[k];
                        &&& final(self).batch_items@ == old(self).batch_items@.update(k, it)
                        &&& it.disk_size == bytes
                        &&& it.status is Complete
                        &&& it.progress == (count, count)
                        &&& it.status_override is None
                        &&& it.final_state == Some(state)
                        &&& it.id == o.id && it.path == o.path && it.logical_size == o.logical_size
                    })
                    &&& (k < 0 ==> final(self).batch_items == old(self).batch_items)
                },
                UiMessage::BatchItemAnalyzed(id, logical, disk, state) => {
                    let k = index_of_id(old(self).batch_items@, id);
                    if k >= 0 {
                        let it = final(self).batch_items@[k];
                        let o = old(self).batch_items@[k];
                        &&& final(self).batch_items@ == old(self).batch_items@.update(k, it)
                        &&& it.logical_size == logical && it.disk_size == disk
                        &&& it.status_override is None
                        &&& it.final_state == Some(state)
                        &&& it.id == o.id && it.path == o.path && it.progress == o.progress
                        &&& r matches UiEffect::RowChanged { row, status_text, refresh_buttons }
                        &&& refresh_buttons
                        &&& (row is None <==> row_of_id(old(self).filtered_items@, old(self).batch_items@, id) == -1)
                        &&& (row matches Some(p) ==> p == row_of_id(old(self).filtered_items@, old(self).batch_items@, id) as i32)
                        &&& status_text matches Some(t) && t@ == (decimal(old(self).batch_items@.len() as nat)
                            + utf16_encode(" item(s) analyzed."@)).push(0u16)
                    } else {
                        &&& r is Nothing
                        &&& final(self).batch_items == old(self).batch_items
                    }
                },
                UiMessage::UpdateEstimate(id, algo, size) => {
                    let k = index_of_id(old(self).batch_items@, id);
                    &&& r matches UiEffect::EstimateChanged { row }
                    &&& (k >= 0 ==> {
                        let it = final(self).batch_items@[k];
                        let o = old(self).batch_items@[k];
                        &&& final(self).batch_items@ == old(self).batch_items@.update(k, it)
                        &&& it.estimated_size == size
                        &&& cached_estimate(it, algo) == Some(size)
                        &&& it.estimation_cache@ == o.estimation_cache@.insert(algorithm_code(algo), size)
                        &&& it.id == o.id && it.path == o.path
                        &&& (row is None <==> row_of_id(old(self).filtered_items@, old(self).batch_items@, id) == -1)
                        &&& (row matches Some(p) ==> p == row_of_id(old(self).filtered_items@, old(self).batch_items@, id) as i32)
                    })
                    &&& (k < 0 ==> final(self).batch_items == old(self).batch_items && row is None)
                },
                UiMessage::WatcherTrigger(path, algo) => {
                    if exists|i: int| 0 <= i < old(self).batch_items@.len() && #[trigger] old(self).batch_items@[i].path@ == path@ {
                        &&& r is Nothing
                        &&& final(self).batch_items == old(self).batch_items
                    } else {
                        let n = old(self).batch_items@.len();
                        let it = final(self).batch_items@[n as int];
                        &&& final(self).batch_items@.len() == n + 1
                        &&& final(self).batch_items@.take(n as int) == old(self).batch_items@
                        &&& it.id == old(self).next_item_id && it.path@ == path@ && it.algorithm == algo
                        &&& final(self).next_item_id == old(self).next_item_id + 1
                        &&& r matches UiEffect::WatcherItemAdded { id, row }
                        &&& id == old(self).next_item_id
                        &&& (row is None <==> row_of_id(final(self).filtered_items@, final(self).batch_items@, id) == -1)
                        &&& (row matches Some(p) ==> p == row_of_id(final(self).filtered_items@, final(self).batch_items@, id) as i32)
                    }
                },
                _ => {
                    &&& r is Nothing
                    &&& final(self).batch_items == old(self).batch_items
                },
            },
    {
        match msg {
            UiMessage::Progress(cur, total) => {
                let text = fmt_progress(cur, total);
                UiEffect::ShowProgress { current: cur, total, text }
            },
            UiMessage::StatusText(t) => UiEffect::SetStatus(t),
            UiMessage::Log(entry) => {
                let error_text = match entry.level {
                    LogLevel::Error => Some(to_wstring(entry.message.as_str())),
                    _ => None,
                };
                self.push_log(entry);
                UiEffect::Logged { error_text }
            },
            UiMessage::Finished => {
                match self.take_next_batch(max_concurrent) {
                    Some(indices) => {
                        let left = self.processing_queue.len();
                        let queued_text = if left > 0 {
                            let mut t: Vec<u16> = Vec::new();
                            push_str_units(&mut t, "Processing... (");
                            push_decimal(&mut t, left as u64);
                            push_str_units(&mut t, " queued)");
                            t.push(0);
                            Some(t)
                        } else {
                            None
                        };
                        UiEffect::StartBatch { indices, queued_text }
                    },
                    None => UiEffect::RunFinished,
                }
            },
            UiMessage::ScanProgress(id, logical, disk, count) => {
                match find_index(&self.batch_items, id) {
                    Some(pos) => {
                        let over = if self.global_state == ProcessingState::Stopped {
                            String::from_str("Cancelled")
                        } else if self.global_state == ProcessingState::Paused {
                            String::from_str("Paused")
                        } else {
                            let mut s = String::from_str("Scanning... ");
                            push_decimal_chars(&mut s, count);
                            s
                        };
                        self.batch_items[pos].logical_size = logical;
                        self.batch_items[pos].disk_size = disk;
                        self.batch_items[pos].status_override = Some(over);
                        let row = self.find_ui_row_by_id(id);
                        let mut t: Vec<u16> = Vec::new();
                        push_str_units(&mut t, "Scanning: ");
                        push_str_units(&mut t, self.batch_items[pos].path.as_str());
                        push_str_units(&mut t, "... (");
                        push_decimal(&mut t, count);
                        push_str_units(&mut t, " files)");
                        t.push(0);
                        proof { self.lemma_update_keeps_ids(*old(self), pos as int); }
                        UiEffect::RowChanged { row, status_text: Some(t), refresh_buttons: false }
                    },
                    None => UiEffect::Nothing,
                }
            },
            UiMessage::RowProgress(id, cur, tot, bytes) => {
                let row = self.find_ui_row_by_id(id);
                match find_index(&self.batch_items, id) {
                    Some(pos) => {
                        self.batch_items[pos].progress = (cur, tot);
                        if bytes > 0 {
                            self.batch_items[pos].disk_size = bytes;
                        }
                        self.batch_items[pos].status_override = None;
                        self.batch_items[pos].status = BatchStatus::Processing;
                        proof { self.lemma_update_keeps_ids(*old(self), pos as int); }
                    },
                    None => {},
                }
                UiEffect::RowChanged { row, status_text: None, refresh_buttons: false }
            },
            UiMessage::RowFinished(id, bytes, count, state) => {
                let row = self.find_ui_row_by_id(id);
                match find_index(&self.batch_items, id) {
                    Some(pos) => {
                        self.batch_items[pos].disk_size = bytes;
                        self.batch_items[pos].status = BatchStatus::Complete;
                        self.batch_items[pos].progress = (count, count);
                        self.batch_items[pos].status_override = None;
                        self.batch_items[pos].final_state = Some(state);
                        proof { self.lemma_update_keeps_ids(*old(self), pos as int); }
                    },
                    None => {},
                }
                UiEffect::RowChanged { row, status_text: None, refresh_buttons: true }
            },
            UiMessage::BatchItemAnalyzed(id, logical, disk, state) => {
                match find_index(&self.batch_items, id) {
                    Some(pos) => {
                        let row = self.find_ui_row_by_id(id);
                        self.batch_items[pos].logical_size = logical;
                        self.batch_items[pos].disk_size = disk;
                        self.batch_items[pos].status_override = None;
                        self.batch_items[pos].final_state = Some(state);
                        let mut t: Vec<u16> = Vec::new();
                        push_decimal(&mut t, self.batch_items.len() as u64);
                        push_str_units(&mut t, " item(s) analyzed.");
                        t.push(0);
                        proof { self.lemma_update_keeps_ids(*old(self), pos as int); }
                        UiEffect::RowChanged { row, status_text: Some(t), refresh_buttons: true }
                    },
                    None => UiEffect::Nothing,
                }
            },
            UiMessage::UpdateEstimate(id, algo, size) => {
                match find_index(&self.batch_items, id) {
                    Some(pos) => {
                        let row = self.find_ui_row_by_id(id);
                        self.batch_items[pos].cache_estimate(algo, size);
                        proof { self.lemma_update_keeps_ids(*old(self), pos as int); }
                        UiEffect::EstimateChanged { row }
                    },
                    None => UiEffect::EstimateChanged { row: None },
                }
            },
            UiMessage::WatcherTrigger(path, algo) => {
                if self.has_path(&path) {
                    UiEffect::Nothing
                } else {
                    let ghost n = self.batch_items@.len();
                    let id = self.add_batch_item(path);
                    proof {
                        lemma_index_of_id(self.batch_items@, id);
                        assert(self.batch_items@[n as int].id == id);
                        assert forall|k: int| 0 <= k < n implies self.batch_items@[k].id != id by {
                            assert(self.batch_items@[k] == old(self).batch_items@[k]);
                            assert(old(self).batch_items@[k].id < old(self).next_item_id);
                        }
                        assert(index_of_id(self.batch_items@, id) == n);
                    }
                    self.set_item_algorithm(id, algo);
                    proof {
                        assert(self.batch_items@.take(n as int) =~= old(self).batch_items@);
                    }
                    self.refresh_file_list();
                    let row = self.find_ui_row_by_id(id);
                    UiEffect::WatcherItemAdded { id, row }
                }
            },
            UiMessage::BatchItemStatus(_, _) => UiEffect::Nothing,
            UiMessage::BatchItemProgress(_, _, _) => UiEffect::Nothing,
        }
    }

    /// Whether some item has exactly this path.
    pub fn has_path(&self, path: &String) -> (r: bool)
        ensures
            r == exists|i: int| 0 <= i < self.batch_items@.len() && #[trigger] self.batch_items@[i].path@ == path@,
    {
        let n = self.batch_items.len();
        let mut i: usize = 0;
        while i < n
            invariant
                n == self.batch_items@.len(),
                0 <= i <= n,
                forall|k: int| 0 <= k < i ==> #[trigger] self.batch_items@[k].path@ != path@,
            decreases n - i,
        {
            if self.batch_items[i].path == *path {
                return true;
            }
            i += 1;
        }
        false
    }

    proof fn lemma_update_keeps_ids(&self, prev: AppState, k: int)
        requires
            prev.wf(),
            0 <= k < prev.batch_items@.len(),
            self.batch_items@.len() == prev.batch_items@.len(),
            self.batch_items@[k].id == prev.batch_items@[k].id,
            forall|j: int| 0 <= j < prev.batch_items@.len() && j != k ==> self.batch_items@[j] == prev.batch_items@[j],
            self.next_item_id == prev.next_item_id,
        ensures
            self.wf(),
    {
        assert(ids_valid(self.batch_items@, self.next_item_id)) by {
            assert forall|i: int, j: int| 0 <= i < j < self.batch_items@.len() implies self.batch_items@[i].id != self.batch_items@[j].id by {
                assert(prev.batch_items@[i].id != prev.batch_items@[j].id);
            }
            assert forall|i: int| 0 <= i < self.batch_items@.len() implies self.batch_items@[i].id < self.next_item_id by {
                assert(prev.batch_items@[i].id < prev.next_item_id);
            }
        }
    }
}

} // verus!
