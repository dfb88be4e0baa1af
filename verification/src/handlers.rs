//! Decisions the main window takes on user commands: adding paths,
//! starting, pausing and stopping a run, the state of the action buttons,
//! clicks in the list, and the list's sort column.
use vstd::prelude::*;
use crate::batch::{AppState, ids_valid, index_of_id, lemma_index_of_id, same_but_items};
use crate::state::{BatchItem, BatchAction, BatchStatus, ProcessingState, cached_estimate};
use crate::wof::{WofAlgorithm, algorithm_code};
use crate::text::{lowercase, to_lowercase};
use vstd::string::StringExecFns;

verus! {

/// Whether some item has the given path.
pub open spec fn has_path(items: Seq<BatchItem>, p: Seq<char>) -> bool {
    exists|i: int| 0 <= i < items.len() && #[trigger] items[i].path@ == p
}

/// The paths that adding `paths` in order really adds: each path that is neither
/// already in the batch nor added earlier in the same call.
pub open spec fn paths_added(items: Seq<BatchItem>, paths: Seq<Seq<char>>) -> Seq<Seq<char>>
    decreases paths.len(),
{
    if paths.len() == 0 {
        Seq::empty()
    } else {
        let prev = paths_added(items, paths.drop_last());
        let p = paths.last();
        if has_path(items, p) || prev.contains(p) {
            prev
        } else {
            prev.push(p)
        }
    }
}

proof fn lemma_paths_added_len(items: Seq<BatchItem>, paths: Seq<Seq<char>>)
    ensures
        paths_added(items, paths).len() <= paths.len(),
    decreases paths.len(),
{
    if paths.len() > 0 {
        lemma_paths_added_len(items, paths.drop_last());
    }
}

/// `it` is a new item for `path` whose size is being computed.
pub open spec fn is_ingested_item(it: BatchItem, id: u32, path: Seq<char>) -> bool {
    &&& it.id == id
    &&& it.path@ == path
    &&& it.path_lower@ == lowercase(path)
    &&& it.algorithm == WofAlgorithm::Xpress8K
    &&& it.action == BatchAction::Compress
    &&& it.status is Pending
    &&& it.status_override matches Some(s) && s@ == "Calculating..."@
    &&& it.final_state is None
    &&& it.progress == (0u64, 0u64)
    &&& it.logical_size == 0
    &&& it.disk_size == 0
    &&& it.estimated_size == 0
    &&& it.estimation_cache@ == Map::<u32, u64>::empty()
}

/// State of the action buttons.
#[derive(Clone, Copy, Debug, PartialEq, Eq, Structural)]
pub struct ButtonStates {
    pub process_enabled: bool,
    pub remove_enabled: bool,
    pub clear_enabled: bool,
    pub pause_enabled: bool,
    /// The pause button shows "resume" rather than "pause".
    pub pause_shows_resume: bool,
}

pub open spec fn awaits_processing(s: BatchStatus) -> bool {
    s is Pending || s is Error
}

/// Indices, in order, of the first `n` items that wait for processing (pending or failed).
pub open spec fn waiting_indices(items: Seq<BatchItem>, n: int) -> Seq<usize>
    decreases n,
{
    if n <= 0 {
        Seq::empty()
    } else if awaits_processing(items[n - 1].status) {
        waiting_indices(items, n - 1).push((n - 1) as usize)
    } else {
        waiting_indices(items, n - 1)
    }
}

/// What "Process" does.
pub enum ProcessAllPlan {
    /// The batch is empty: tell the user to add folders first.
    NoItems,
    /// Nothing selected and nothing pending: say so.
    NothingPending,
    /// Nothing to do and nothing to say.
    Nothing,
    /// Process these items.
    Start(Vec<usize>),
}

/// What a click in the playback column asks for.
#[derive(Clone, Copy, Debug, PartialEq, Eq, Structural)]
pub enum PlaybackAction {
    /// Add the item's folder to the watcher schedule.
    Watch,
    Start,
    Pause,
    Resume,
    Stop,
    Nothing,
}

/// Width of the "watch" zone at the left of the playback column.
pub const WATCH_ZONE_WIDTH: i32 = 32;

pub open spec fn playback_action(state: ProcessingState, rel_x: int, width: int, row_exists: bool) -> PlaybackAction {
    if rel_x <= 32 {
        PlaybackAction::Watch
    } else if width - 32 <= 0 {
        PlaybackAction::Nothing
    } else {
        let half = (width - 32) / 2;
        let right = rel_x - 32 > half;
        match state {
            ProcessingState::Idle | ProcessingState::Stopped => if row_exists {
                PlaybackAction::Start
            } else {
                PlaybackAction::Nothing
            },
            ProcessingState::Running => if right {
                PlaybackAction::Stop
            } else {
                PlaybackAction::Pause
            },
            ProcessingState::Paused => if right {
                PlaybackAction::Stop
            } else {
                PlaybackAction::Resume
            },
        }
    }
}

/// Which part of the playback column a click hit, from its x position relative to
/// the column and the column's width.
pub fn playback_click(state: ProcessingState, rel_x: i32, width: i32, row_exists: bool) -> (r: PlaybackAction)
    requires
        width >= i32::MIN + 32,
    ensures
        r == playback_action(state, rel_x as int, width as int, row_exists),
{
    if rel_x <= WATCH_ZONE_WIDTH {
        return PlaybackAction::Watch;
    }
    let playback_width = width - WATCH_ZONE_WIDTH;
    if playback_width <= 0 {
        return PlaybackAction::Nothing;
    }
    let rel = rel_x - WATCH_ZONE_WIDTH;
    let right = rel > playback_width / 2;
    match state {
        ProcessingState::Idle | ProcessingState::Stopped => {
            if row_exists {
                PlaybackAction::Start
            } else {
                PlaybackAction::Nothing
            }
        },
        ProcessingState::Running => {
            if right {
                PlaybackAction::Stop
            } else {
                PlaybackAction::Pause
            }
        },
        ProcessingState::Paused => {
            if right {
                PlaybackAction::Stop
            } else {
                PlaybackAction::Resume
            }
        },
    }
}

pub open spec fn next_algorithm_spec(a: WofAlgorithm) -> WofAlgorithm {
    match a {
        WofAlgorithm::Xpress4K => WofAlgorithm::Xpress8K,
        WofAlgorithm::Xpress8K => WofAlgorithm::Xpress16K,
        WofAlgorithm::Xpress16K => WofAlgorithm::Lzx,
        WofAlgorithm::Lzx => WofAlgorithm::Xpress4K,
        WofAlgorithm::Lznt1 => WofAlgorithm::Xpress4K,
    }
}

/// The algorithm a double click on the algorithm column moves to:
/// XPRESS4K, XPRESS8K, XPRESS16K, LZX and round again (LZNT1 moves to XPRESS4K).
pub fn next_algorithm(a: WofAlgorithm) -> (r: WofAlgorithm)
    ensures
        r == next_algorithm_spec(a),
{
    match a {
        WofAlgorithm::Xpress4K => WofAlgorithm::Xpress8K,
        WofAlgorithm::Xpress8K => WofAlgorithm::Xpress16K,
        WofAlgorithm::Xpress16K => WofAlgorithm::Lzx,
        WofAlgorithm::Lzx => WofAlgorithm::Xpress4K,
        WofAlgorithm::Lznt1 => WofAlgorithm::Xpress4K,
    }
}

/// Four double clicks bring a listed algorithm back to where it was.
pub proof fn lemma_algorithm_cycle(a: WofAlgorithm)
    requires
        a != WofAlgorithm::Lznt1,
    ensures
        next_algorithm_spec(next_algorithm_spec(next_algorithm_spec(next_algorithm_spec(a)))) == a,
        next_algorithm_spec(a) != a,
{
}

pub open spec fn toggled_action(a: BatchAction) -> BatchAction {
    match a {
        BatchAction::Compress => BatchAction::Decompress,
        BatchAction::Decompress => BatchAction::Compress,
    }
}

/// The action a double click on the action column switches to.
pub fn toggle_action(a: BatchAction) -> (r: BatchAction)
    ensures
        r == toggled_action(a),
        r != a,
        toggled_action(r) == a,
{
    match a {
        BatchAction::Compress => BatchAction::Decompress,
        BatchAction::Decompress => BatchAction::Compress,
    }
}

/// The popup-menu command for an algorithm (XPRESS4K 2001 to LZX 2004).
pub fn algorithm_menu_id(a: WofAlgorithm) -> (r: Option<u32>)
    ensures
        r == algorithm_menu_id_spec(a),
{
    match a {
        WofAlgorithm::Xpress4K => Some(2001),
        WofAlgorithm::Xpress8K => Some(2002),
        WofAlgorithm::Xpress16K => Some(2003),
        WofAlgorithm::Lzx => Some(2004),
        WofAlgorithm::Lznt1 => None,
    }
}

pub open spec fn algorithm_menu_id_spec(a: WofAlgorithm) -> Option<u32> {
    match a {
        WofAlgorithm::Xpress4K => Some(2001u32),
        WofAlgorithm::Xpress8K => Some(2002u32),
        WofAlgorithm::Xpress16K => Some(2003u32),
        WofAlgorithm::Lzx => Some(2004u32),
        WofAlgorithm::Lznt1 => None,
    }
}

/// The algorithm a popup-menu command picks.
pub fn algorithm_from_menu(cmd: i32) -> (r: Option<WofAlgorithm>)
    ensures
        !(2001 <= cmd <= 2004) <==> r is None,
        r matches Some(a) ==> algorithm_menu_id_spec(a) == Some(cmd as u32),
{
    match cmd {
        2001 => Some(WofAlgorithm::Xpress4K),
        2002 => Some(WofAlgorithm::Xpress8K),
        2003 => Some(WofAlgorithm::Xpress16K),
        2004 => Some(WofAlgorithm::Lzx),
        _ => None,
    }
}

/// The action a popup-menu command picks (3001 compress, 3002 decompress).
pub fn action_from_menu(cmd: i32) -> (r: Option<BatchAction>)
    ensures
        cmd == 3001 ==> r == Some(BatchAction::Compress),
        cmd == 3002 ==> r == Some(BatchAction::Decompress),
        cmd != 3001 && cmd != 3002 ==> r is None,
{
    match cmd {
        3001 => Some(BatchAction::Compress),
        3002 => Some(BatchAction::Decompress),
        _ => None,
    }
}

/// The popup-menu command that marks an action.
pub fn action_menu_id(a: BatchAction) -> (r: u32)
    ensures
        a == BatchAction::Compress ==> r == 3001,
        a == BatchAction::Decompress ==> r == 3002,
{
    match a {
        BatchAction::Compress => 3001,
        BatchAction::Decompress => 3002,
    }
}

/// What happened to the estimate when an item's algorithm changed.
pub enum EstimateUpdate {
    /// Nothing changed.
    Unchanged,
    /// The estimate for the new algorithm was cached; it is the current estimate now.
    Cached(u64),
    /// No estimate is cached: compute one for this item, path and algorithm.
    Compute { id: u32, path: String, algorithm: WofAlgorithm },
}

/// Entries of the list's popup menu.
#[derive(Clone, Copy, Debug, PartialEq, Eq, Structural)]
pub struct ContextMenuPlan {
    pub show_stop: bool,
    pub show_start: bool,
}

impl AppState {
    /// Adds the paths that are not in the batch yet, in order, each marked
    /// "Calculating..."; returns (id, path, algorithm) of each item to analyse.
    pub fn add_new_paths(&mut self, paths: Vec<String>) -> (r: Vec<(u32, String, WofAlgorithm)>)
        requires
            old(self).next_item_id + paths@.len() < u32::MAX,
            old(self).wf(),
        ensures
            ({
                let added = paths_added(old(self).batch_items@, paths@.map_values(|s: String| s@));
                let n = old(self).batch_items@.len();
                &&& final(self).batch_items@.len() == n + added.len()
                &&& final(self).batch_items@.take(n as int) == old(self).batch_items@
                &&& forall|k: int| 0 <= k < added.len() ==> is_ingested_item(
                    #[trigger] final(self).batch_items@[n + k], (old(self).next_item_id + k) as u32, added[k])
                &&& final(self).next_item_id == old(self).next_item_id + added.len()
                &&& r@.len() == added.len()
                &&& forall|k: int| 0 <= k < added.len() ==> (#[trigger] r@[k]).0 == old(self).next_item_id + k
                    && r@[k].1@ == added[k] && r@[k].2 == WofAlgorithm::Xpress8K
            }),
            final(self).wf(),
            final(self).filtered_items == old(self).filtered_items,
            final(self).processing_queue == old(self).processing_queue,
    {
        let ghost views = paths@.map_values(|s: String| s@);
        let ghost base = self.batch_items@;
        let ghost n = base.len();
        let mut out: Vec<(u32, String, WofAlgorithm)> = Vec::new();
        let m = paths.len();
        let mut i: usize = 0;
        while i < m
            invariant
                m == paths@.len(),
                views == paths@.map_values(|s: String| s@),
                base == old(self).batch_items@,
                n == base.len(),
                0 <= i <= m,
                ({
                    let added = paths_added(base, views.take(i as int));
                    &&& self.batch_items@.len() == n + added.len()
                    &&& self.batch_items@.take(n as int) == base
                    &&& forall|k: int| 0 <= k < added.len() ==> is_ingested_item(
                        #[trigger] self.batch_items@[n + k], (old(self).next_item_id + k) as u32, added[k])
                    &&& self.next_item_id == old(self).next_item_id + added.len()
                    &&& out@.len() == added.len()
                    &&& forall|k: int| 0 <= k < added.len() ==> (#[trigger] out@[k]).0 == old(self).next_item_id + k
                        && out@[k].1@ == added[k] && out@[k].2 == WofAlgorithm::Xpress8K
                    &&& added.len() <= i
                }),
                self.wf(),
                old(self).next_item_id + m < u32::MAX,
                self.filtered_items == old(self).filtered_items,
                self.processing_queue == old(self).processing_queue,
            decreases m - i,
        {
            let ghost added = paths_added(base, views.take(i as int));
            let path = paths[i].clone();
            proof {
                assert(views.take(i + 1).drop_last() =~= views.take(i as int));
                assert(views.take(i + 1).last() == path@);
                assert forall|q: Seq<char>| has_path(self.batch_items@, q) <==> (has_path(base, q) || added.contains(q)) by {
                    if has_path(self.batch_items@, q) {
                        let j = choose|j: int| 0 <= j < self.batch_items@.len() && #[trigger] self.batch_items@[j].path@ == q;
                        if j < n {
                            assert(self.batch_items@.take(n as int)[j] == self.batch_items@[j]);
                            assert(base[j].path@ == q);
                        } else {
                            assert(is_ingested_item(self.batch_items@[n + (j - n)], (old(self).next_item_id + (j - n)) as u32, added[j - n]));
                            assert(added[j - n] == q);
                        }
                    }
                    if has_path(base, q) {
                        let j = choose|j: int| 0 <= j < base.len() && #[trigger] base[j].path@ == q;
                        assert(self.batch_items@.take(n as int)[j] == self.batch_items@[j]);
                        assert(self.batch_items@[j].path@ == q);
                    }
                    if added.contains(q) {
                        let j = choose|j: int| 0 <= j < added.len() && added[j] == q;
                        assert(is_ingested_item(self.batch_items@[n + j], (old(self).next_item_id + j) as u32, added[j]));
                        assert(self.batch_items@[n + j].path@ == q);
                    }
                }
            }
            if !self.has_path(&path) {
                let ghost prev = self.batch_items@;
                let id = self.add_batch_item(path.clone());
                let ghost mid = self.batch_items@;
                let last = self.batch_items.len() - 1;
                self.batch_items[last].status_override = Some(String::from_str("Calculating..."));
                proof {
                    let new_added = added.push(path@);
                    assert(self.batch_items@.take(n as int) =~= base);
                    assert forall|k: int| 0 <= k < new_added.len() implies is_ingested_item(
                        #[trigger] self.batch_items@[n + k], (old(self).next_item_id + k) as u32, new_added[k]) by {
                        if k < added.len() {
                            assert(self.batch_items@[n + k] == mid[n + k]);
                            assert(mid[n + k] == prev[n + k]);
                        } else {
                            assert(n + k == mid.len() - 1);
                        }
                    }
                    assert(ids_valid(self.batch_items@, self.next_item_id)) by {
                        assert forall|a: int, b: int| 0 <= a < b < self.batch_items@.len() implies
                            self.batch_items@[a].id != self.batch_items@[b].id by {
                            if b == self.batch_items@.len() - 1 {
                                assert(self.batch_items@[a].id < id);
                            }
                        }
                    }
                }
                out.push((id, path, WofAlgorithm::Xpress8K));
                proof {
                    let new_added = added.push(path@);
                    assert forall|k: int| 0 <= k < new_added.len() implies (#[trigger] out@[k]).0 == old(self).next_item_id + k
                        && out@[k].1@ == new_added[k] && out@[k].2 == WofAlgorithm::Xpress8K by {
                    }
                }
            }
            i += 1;
        }
        proof {
            assert(views.take(m as int) =~= views);
        }
        out
    }

    /// Starts processing the given items: at most `max_concurrent` of them now
    /// (all when it is 0), the rest queued. Returns the items to start now.
    pub fn start_processing(&mut self, indices: Vec<usize>, max_concurrent: u32) -> (r: Vec<usize>)
        ensures
            indices@.len() == 0 ==> r@.len() == 0 && *final(self) == *old(self),
            indices@.len() > 0 ==> ({
                let k = if max_concurrent > 0 && indices@.len() > max_concurrent { max_concurrent as int } else { indices@.len() as int };
                &&& r@ == indices@.take(k)
                &&& final(self).processing_queue@ == indices@.skip(k)
                &&& final(self).active_lock_dialog is None
                &&& final(self).ignored_lock_processes@.len() == 0
                &&& final(self).batch_items == old(self).batch_items
                &&& final(self).filtered_items == old(self).filtered_items
                &&& final(self).global_state == old(self).global_state
                &&& final(self).next_item_id == old(self).next_item_id
            }),
    {
        if indices.len() == 0 {
            return indices;
        }
        self.active_lock_dialog = None;
        self.ignored_lock_processes.clear();
        let mut now = indices;
        let ghost all = now@;
        if max_concurrent > 0 && now.len() > max_concurrent as usize {
            let queued = now.split_off(max_concurrent as usize);
            self.processing_queue = queued;
        } else {
            self.processing_queue.clear();
            assert(all.skip(all.len() as int) =~= self.processing_queue@);
        }
        assert(now@ =~= all.take(now@.len() as int));
        now
    }

    /// Stops the run: the state becomes stopped and the queue is emptied.
    pub fn stop_processing(&mut self)
        ensures
            final(self).global_state == ProcessingState::Stopped,
            final(self).processing_queue@.len() == 0,
            final(self).batch_items == old(self).batch_items,
            final(self).filtered_items == old(self).filtered_items,
            final(self).next_item_id == old(self).next_item_id,
    {
        self.global_state = ProcessingState::Stopped;
        self.processing_queue.clear();
    }

    /// Pause flips a running run to paused and a paused one back to running;
    /// otherwise nothing changes. Returns the new state when it changed.
    pub fn toggle_pause(&mut self) -> (r: Option<ProcessingState>)
        ensures
            old(self).global_state == ProcessingState::Running ==> r == Some(ProcessingState::Paused)
                && final(self).global_state == ProcessingState::Paused,
            old(self).global_state == ProcessingState::Paused ==> r == Some(ProcessingState::Running)
                && final(self).global_state == ProcessingState::Running,
            old(self).global_state != ProcessingState::Running && old(self).global_state != ProcessingState::Paused
                ==> r is None && final(self).global_state == old(self).global_state,
            final(self).batch_items == old(self).batch_items,
            final(self).processing_queue == old(self).processing_queue,
    {
        let new_state = if self.global_state == ProcessingState::Running {
            ProcessingState::Paused
        } else if self.global_state == ProcessingState::Paused {
            ProcessingState::Running
        } else {
            return None;
        };
        self.global_state = new_state;
        Some(new_state)
    }

    /// Whether some item waits for processing (pending or failed).
    pub fn has_waiting_items(&self) -> (r: bool)
        ensures
            r == exists|i: int| 0 <= i < self.batch_items@.len() && awaits_processing(#[trigger] self.batch_items@[i].status),
    {
        let n = self.batch_items.len();
        let mut i: usize = 0;
        while i < n
            invariant
                n == self.batch_items@.len(),
                0 <= i <= n,
                forall|k: int| 0 <= k < i ==> !awaits_processing(#[trigger] self.batch_items@[k].status),
            decreases n - i,
        {
            match &self.batch_items[i].status {
                BatchStatus::Pending | BatchStatus::Error(_) => return true,
                _ => {},
            }
            i += 1;
        }
        false
    }

    /// Which action buttons are enabled, given how many rows are selected.
    pub fn button_states(&self, selected_count: usize) -> (r: ButtonStates)
        ensures
            ({
                let gs = self.global_state;
                let can_start = gs == ProcessingState::Idle || gs == ProcessingState::Stopped;
                let waiting = exists|i: int| 0 <= i < self.batch_items@.len() && awaits_processing(#[trigger] self.batch_items@[i].status);
                &&& r.process_enabled == (can_start && (selected_count > 0 || waiting))
                &&& r.remove_enabled == (selected_count > 0 && gs != ProcessingState::Running)
                &&& r.clear_enabled == (self.batch_items@.len() > 0 && gs != ProcessingState::Running)
                &&& r.pause_enabled == (gs == ProcessingState::Running || gs == ProcessingState::Paused)
                &&& r.pause_shows_resume == (gs == ProcessingState::Paused)
            }),
    {
        let gs = self.global_state;
        let can_start = gs == ProcessingState::Idle || gs == ProcessingState::Stopped;
        let process_enabled = if selected_count > 0 {
            can_start
        } else if self.has_waiting_items() {
            can_start
        } else {
            false
        };
        ButtonStates {
            process_enabled,
            remove_enabled: selected_count > 0 && gs != ProcessingState::Running,
            clear_enabled: self.batch_items.len() > 0 && gs != ProcessingState::Running,
            pause_enabled: gs == ProcessingState::Running || gs == ProcessingState::Paused,
            pause_shows_resume: gs == ProcessingState::Paused,
        }
    }

    /// What "Process" does with the selected rows (or, with none selected, the
    /// items that wait for processing).
    pub fn plan_process_all(&self, selected: Vec<usize>, is_auto_start: bool) -> (r: ProcessAllPlan)
        ensures
            self.batch_items@.len() == 0 ==> r is NoItems,
            self.batch_items@.len() > 0 && selected@.len() > 0 ==> (r matches ProcessAllPlan::Start(v) && v@ == selected@),
            self.batch_items@.len() > 0 && selected@.len() == 0 ==> ({
                let w = waiting_indices(self.batch_items@, self.batch_items@.len() as int);
                &&& w.len() > 0 ==> (r matches ProcessAllPlan::Start(v) && v@ == w)
                &&& w.len() == 0 && !is_auto_start ==> r is NothingPending
                &&& w.len() == 0 && is_auto_start ==> r is Nothing
            }),
    {
        if self.batch_items.len() == 0 {
            return ProcessAllPlan::NoItems;
        }
        if selected.len() > 0 {
            return ProcessAllPlan::Start(selected);
        }
        let mut w: Vec<usize> = Vec::new();
        let n = self.batch_items.len();
        let mut i: usize = 0;
        while i < n
            invariant
                n == self.batch_items@.len(),
                0 <= i <= n,
                w@ == waiting_indices(self.batch_items@, i as int),
            decreases n - i,
        {
            match &self.batch_items[i].status {
                BatchStatus::Pending | BatchStatus::Error(_) => w.push(i),
                _ => {},
            }
            i += 1;
        }
        if w.len() == 0 {
            if is_auto_start {
                ProcessAllPlan::Nothing
            } else {
                ProcessAllPlan::NothingPending
            }
        } else {
            ProcessAllPlan::Start(w)
        }
    }

    /// A click on a column header: the same column flips the direction, another
    /// column becomes the sort column, ascending.
    pub fn on_column_click(&mut self, column: i32)
        ensures
            old(self).sort_column == column ==> final(self).sort_column == column
                && final(self).sort_ascending == !old(self).sort_ascending,
            old(self).sort_column != column ==> final(self).sort_column == column && final(self).sort_ascending,
            final(self).batch_items == old(self).batch_items,
            final(self).filtered_items == old(self).filtered_items,
    {
        if self.sort_column == column {
            self.sort_ascending = !self.sort_ascending;
        } else {
            self.sort_column = column;
            self.sort_ascending = true;
        }
    }

    /// Gives the item at `index` another algorithm; the estimate comes from the
    /// cache when there is one. With `only_if_different`, an item that already
    /// has the algorithm is left alone.
    pub fn change_item_algorithm(&mut self, index: usize, algorithm: WofAlgorithm, only_if_different: bool) -> (r: EstimateUpdate)
        requires
            old(self).wf(),
        ensures
            final(self).wf(),
            final(self).batch_items@.len() == old(self).batch_items@.len(),
            final(self).next_item_id == old(self).next_item_id,
            index >= old(self).batch_items@.len()
                || (only_if_different && old(self).batch_items@[index as int].algorithm == algorithm)
                ==> r is Unchanged && final(self).batch_items == old(self).batch_items,
            index < old(self).batch_items@.len()
                && !(only_if_different && old(self).batch_items@[index as int].algorithm == algorithm) ==> ({
                let o = old(self).batch_items@[index as int];
                let it = final(self).batch_items@[index as int];
                &&& final(self).batch_items@ == old(self).batch_items@.update(index as int, it)
                &&& it.algorithm == algorithm
                &&& it.id == o.id && it.path == o.path && it.action == o.action
                &&& it.estimation_cache == o.estimation_cache
                &&& match cached_estimate(o, algorithm) {
                    Some(v) => (r matches EstimateUpdate::Cached(x) && x == v && it.estimated_size == v),
                    None => (r matches EstimateUpdate::Compute { id, path, algorithm: a }
                        && id == o.id && path@ == o.path@ && a == algorithm && it.estimated_size == o.estimated_size),
                }
            }),
    {
        if index >= self.batch_items.len() {
            return EstimateUpdate::Unchanged;
        }
        if only_if_different && self.batch_items[index].algorithm == algorithm {
            return EstimateUpdate::Unchanged;
        }
        self.batch_items[index].algorithm = algorithm;
        let r = match self.batch_items[index].get_cached_estimate(algorithm) {
            Some(v) => {
                self.batch_items[index].estimated_size = v;
                EstimateUpdate::Cached(v)
            },
            None => EstimateUpdate::Compute {
                id: self.batch_items[index].id,
                path: self.batch_items[index].path.clone(),
                algorithm,
            },
        };
        proof {
            assert forall|a: int, b: int| 0 <= a < b < self.batch_items@.len() implies
                self.batch_items@[a].id != self.batch_items@[b].id by {
                assert(old(self).batch_items@[a].id != old(self).batch_items@[b].id);
            }
            assert forall|a: int| 0 <= a < self.batch_items@.len() implies self.batch_items@[a].id < self.next_item_id by {
                assert(old(self).batch_items@[a].id < old(self).next_item_id);
            }
        }
        r
    }

    /// Sets the action of the item at `index`; tells whether it changed.
    pub fn change_item_action(&mut self, index: usize, action: BatchAction) -> (r: bool)
        requires
            old(self).wf(),
        ensures
            final(self).wf(),
            r == (index < old(self).batch_items@.len() && old(self).batch_items@[index as int].action != action),
            !r ==> final(self).batch_items == old(self).batch_items,
            r ==> ({
                let o = old(self).batch_items@[index as int];
                let it = final(self).batch_items@[index as int];
                &&& final(self).batch_items@ == old(self).batch_items@.update(index as int, it)
                &&& it.action == action
                &&& it.id == o.id && it.path == o.path && it.algorithm == o.algorithm
            }),
            final(self).next_item_id == old(self).next_item_id,
    {
        if index >= self.batch_items.len() || self.batch_items[index].action == action {
            return false;
        }
        self.batch_items[index].action = action;
        proof {
            assert forall|a: int, b: int| 0 <= a < b < self.batch_items@.len() implies
                self.batch_items@[a].id != self.batch_items@[b].id by {
                assert(old(self).batch_items@[a].id != old(self).batch_items@[b].id);
            }
            assert forall|a: int| 0 <= a < self.batch_items@.len() implies self.batch_items@[a].id < self.next_item_id by {
                assert(old(self).batch_items@[a].id < old(self).next_item_id);
            }
        }
        true
    }

    /// The entries of the popup menu for the selected rows: "Stop" when one of
    /// them is processing, otherwise "Start Selected" when one is pending.
    pub fn context_menu_plan(&self, selected: &Vec<usize>) -> (r: ContextMenuPlan)
        ensures
            r.show_stop == exists|i: int| 0 <= i < selected@.len() && selected@[i] < self.batch_items@.len()
                && #[trigger] self.batch_items@[selected@[i] as int].status is Processing,
            r.show_start == (!r.show_stop && exists|i: int| 0 <= i < selected@.len() && selected@[i] < self.batch_items@.len()
                && #[trigger] self.batch_items@[selected@[i] as int].status is Pending),
    {
        let mut any_processing = false;
        let mut any_pending = false;
        let n = selected.len();
        let mut i: usize = 0;
        while i < n
            invariant
                n == selected@.len(),
                0 <= i <= n,
                any_processing == exists|j: int| 0 <= j < i && selected@[j] < self.batch_items@.len()
                    && #[trigger] self.batch_items@[selected@[j] as int].status is Processing,
                any_pending == exists|j: int| 0 <= j < i && selected@[j] < self.batch_items@.len()
                    && #[trigger] self.batch_items@[selected@[j] as int].status is Pending,
            decreases n - i,
        {
            let idx = selected[i];
            if idx < self.batch_items.len() {
                match &self.batch_items[idx].status {
                    BatchStatus::Processing => {
                        any_processing = true;
                    },
                    BatchStatus::Pending => {
                        any_pending = true;
                    },
                    _ => {},
                }
            }
            proof {
                if !any_processing {
                    assert forall|j: int| 0 <= j < i + 1 && selected@[j] < self.batch_items@.len() implies
                        !(#[trigger] self.batch_items@[selected@[j] as int].status is Processing) by {}
                }
                if !any_pending {
                    assert forall|j: int| 0 <= j < i + 1 && selected@[j] < self.batch_items@.len() implies
                        !(#[trigger] self.batch_items@[selected@[j] as int].status is Pending) by {}
                }
            }
            i += 1;
        }
        ContextMenuPlan { show_stop: any_processing, show_start: !any_processing && any_pending }
    }

    /// Clears the batch and everything that belongs to a run, and hands out ids from 1 again.
    pub fn clear_all(&mut self)
        ensures
            final(self).batch_items@.len() == 0,
            final(self).filtered_items@.len() == 0,
            final(self).next_item_id == 1,
            final(self).active_lock_dialog is None,
            final(self).ignored_lock_processes@.len() == 0,
            final(self).logs@.len() == 0,
            final(self).wf(),
            final(self).global_state == old(self).global_state,
            final(self).processing_queue == old(self).processing_queue,
    {
        self.clear_batch();
        self.next_item_id = 1;
        self.active_lock_dialog = None;
        self.ignored_lock_processes.clear();
        self.logs.clear();
    }
}

/// The items whose id is not in `ids`, in their order.
pub open spec fn without_ids(s: Seq<BatchItem>, ids: Set<u32>) -> Seq<BatchItem>
    decreases s.len(),
{
    if s.len() == 0 {
        s
    } else if ids.contains(s.last().id) {
        without_ids(s.drop_last(), ids)
    } else {
        without_ids(s.drop_last(), ids).push(s.last())
    }
}

/// The ids of the items at the selected positions (positions past the end are ignored).
pub open spec fn selected_ids(items: Seq<BatchItem>, selected: Seq<usize>) -> Set<u32> {
    Set::new(|id: u32| exists|k: int| 0 <= k < selected.len() && selected[k] < items.len()
        && #[trigger] items[selected[k] as int].id == id)
}

proof fn lemma_without_absent(s: Seq<BatchItem>, id: u32)
    requires
        forall|k: int| 0 <= k < s.len() ==> s[k].id != id,
    ensures
        without_ids(s, set![id]) == s,
    decreases s.len(),
{
    if s.len() > 0 {
        lemma_without_absent(s.drop_last(), id);
        assert(s.drop_last().push(s.last()) =~= s);
    }
}

proof fn lemma_remove_is_without(s: Seq<BatchItem>, id: u32)
    requires
        forall|i: int, j: int| 0 <= i < j < s.len() ==> s[i].id != s[j].id,
    ensures
        index_of_id(s, id) >= 0 ==> s.remove(index_of_id(s, id)) == without_ids(s, set![id]),
        index_of_id(s, id) < 0 ==> s == without_ids(s, set![id]),
    decreases s.len(),
{
    lemma_index_of_id(s, id);
    if s.len() > 0 {
        let d = s.drop_last();
        lemma_remove_is_without(d, id);
        lemma_index_of_id(d, id);
        if index_of_id(d, id) >= 0 {
            let i = index_of_id(d, id);
            assert(s.last().id != id) by {
                assert(s[i].id == id);
                assert(s[s.len() - 1] == s.last());
            }
            assert(s.remove(i) =~= d.remove(i).push(s.last()));
        } else if s.last().id == id {
            assert forall|k: int| 0 <= k < d.len() implies d[k].id != id by {}
            lemma_without_absent(d, id);
            assert(s.remove(s.len() - 1) =~= d);
        } else {
            lemma_without_absent(s, id);
        }
    }
}

proof fn lemma_without_more(s: Seq<BatchItem>, a: Set<u32>, id: u32)
    ensures
        without_ids(without_ids(s, a), set![id]) == without_ids(s, a.insert(id)),
    decreases s.len(),
{
    if s.len() > 0 {
        let d = s.drop_last();
        lemma_without_more(d, a, id);
        if !a.contains(s.last().id) {
            let x = without_ids(d, a);
            assert(x.push(s.last()).drop_last() =~= x);
        }
    }
}

impl AppState {
    /// Removes the items at the selected positions of the batch (positions
    /// past the end are ignored); the others keep their order.
    pub fn remove_selected(&mut self, selected: Vec<usize>)
        requires
            old(self).wf(),
        ensures
            final(self).batch_items@ == without_ids(old(self).batch_items@, selected_ids(old(self).batch_items@, selected@)),
            same_but_items(*old(self), *final(self)),
            final(self).next_item_id == old(self).next_item_id,
            final(self).wf(),
    {
        let ghost items0 = self.batch_items@;
        let mut ids: Vec<u32> = Vec::new();
        let mut k: usize = 0;
        while k < selected.len()
            invariant
                items0 == self.batch_items@,
                0 <= k <= selected@.len(),
                ids@.to_set() == Set::new(|id: u32| exists|j: int| 0 <= j < k && selected@[j] < items0.len()
                    && #[trigger] items0[selected@[j] as int].id == id),
            decreases selected@.len() - k,
        {
            let idx = selected[k];
            let ghost before = ids@;
            if idx < self.batch_items.len() {
                ids.push(self.batch_items[idx].id);
            }
            proof {
                if idx < items0.len() {
                    assert(ids@ == before.push(items0[idx as int].id));
                }
                assert forall|id: u32| #[trigger] ids@.to_set().contains(id) == (exists|j: int| 0 <= j < k + 1
                    && selected@[j] < items0.len() && #[trigger] items0[selected@[j] as int].id == id) by {
                    if ids@.to_set().contains(id) {
                        let m = choose|m: int| 0 <= m < ids@.len() && ids@[m] == id;
                        if m < before.len() {
                            assert(before.to_set().contains(id)) by { assert(before[m] == id); }
                        } else {
                            assert(items0[selected@[k as int] as int].id == id);
                        }
                    }
                    if exists|j: int| 0 <= j < k + 1 && selected@[j] < items0.len() && #[trigger] items0[selected@[j] as int].id == id {
                        let j = choose|j: int| 0 <= j < k + 1 && selected@[j] < items0.len() && #[trigger] items0[selected@[j] as int].id == id;
                        if j < k {
                            assert(before.to_set().contains(id));
                            let m = choose|m: int| 0 <= m < before.len() && before[m] == id;
                            assert(ids@[m] == id);
                        } else {
                            assert(ids@[ids@.len() - 1] == id);
                        }
                    }
                }
                assert(ids@.to_set() =~= Set::new(|id: u32| exists|j: int| 0 <= j < k + 1 && selected@[j] < items0.len()
                    && #[trigger] items0[selected@[j] as int].id == id));
            }
            k += 1;
        }
        assert(ids@.to_set() =~= selected_ids(items0, selected@));
        let mut j: usize = 0;
        proof {
            lemma_without_none(items0);
            assert(ids@.take(0).to_set() =~= Set::<u32>::empty());
        }
        while j < ids.len()
            invariant
                0 <= j <= ids@.len(),
                self.wf(),
                self.batch_items@ == without_ids(items0, ids@.take(j as int).to_set()),
                same_but_items(*old(self), *self),
                self.next_item_id == old(self).next_item_id,
            decreases ids@.len() - j,
        {
            let id = ids[j];
            proof {
                lemma_remove_is_without(self.batch_items@, id);
                lemma_without_more(items0, ids@.take(j as int).to_set(), id);
                assert(ids@.take(j + 1).to_set() =~= ids@.take(j as int).to_set().insert(id)) by {
                    assert(ids@.take(j + 1) =~= ids@.take(j as int).push(id));
                    vstd::seq_lib::lemma_seq_contains_after_push(ids@.take(j as int), id, id);
                }
            }
            self.remove_batch_item(id);
            j += 1;
        }
        assert(ids@.take(ids@.len() as int) =~= ids@);
    }
}

proof fn lemma_without_none(s: Seq<BatchItem>)
    ensures
        without_ids(s, Set::<u32>::empty()) == s,
    decreases s.len(),
{
    if s.len() > 0 {
        lemma_without_none(s.drop_last());
        assert(s.drop_last().push(s.last()) =~= s);
    }
}

} // verus!
