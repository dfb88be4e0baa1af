//! The run of the start-up dialog (items given on the command line): the
//! sizes each item reports, what the dialog shows for each worker message,
//! and what its Cancel button does.
use vstd::prelude::*;
use crate::messages::UiMessage;
use crate::state::ProcessingState;
use crate::wide::{utf16_encode, decimal, push_str_units, push_decimal};

verus! {

/// The sizes of one item: (id, logical size, size on disk).
pub type ItemSizes = (u32, u64, u64);

/// Each id occurs at most once.
pub open spec fn ids_unique(s: Seq<ItemSizes>) -> bool {
    forall|i: int, j: int| 0 <= i < j < s.len() ==> s[i].0 != s[j].0
}

/// The sizes by id.
pub open spec fn sizes_map(s: Seq<ItemSizes>) -> Map<u32, (u64, u64)>
    decreases s.len(),
{
    if s.len() == 0 {
        Map::empty()
    } else {
        sizes_map(s.drop_last()).insert(s.last().0, (s.last().1, s.last().2))
    }
}

/// The sums of the logical sizes and of the sizes on disk.
pub open spec fn sizes_sum(s: Seq<ItemSizes>) -> (int, int)
    decreases s.len(),
{
    if s.len() == 0 {
        (0, 0)
    } else {
        let p = sizes_sum(s.drop_last());
        (p.0 + s.last().1, p.1 + s.last().2)
    }
}

proof fn lemma_sizes_map_keys(s: Seq<ItemSizes>)
    ensures
        forall|id: u32| #[trigger] sizes_map(s).contains_key(id) <==> exists|k: int| 0 <= k < s.len() && s[k].0 == id,
    decreases s.len(),
{
    if s.len() > 0 {
        lemma_sizes_map_keys(s.drop_last());
        assert forall|id: u32| #[trigger] sizes_map(s).contains_key(id) implies exists|k: int| 0 <= k < s.len() && s[k].0 == id by {
            if id != s.last().0 {
                assert(sizes_map(s.drop_last()).contains_key(id));
                let k = choose|k: int| 0 <= k < s.drop_last().len() && s.drop_last()[k].0 == id;
                assert(s[k].0 == id);
            } else {
                assert(s[s.len() - 1].0 == id);
            }
        }
        assert forall|id: u32| (exists|k: int| 0 <= k < s.len() && s[k].0 == id) implies #[trigger] sizes_map(s).contains_key(id) by {
            let k = choose|k: int| 0 <= k < s.len() && s[k].0 == id;
            if k < s.len() - 1 {
                assert(s.drop_last()[k].0 == id);
                assert(sizes_map(s.drop_last()).contains_key(id));
            }
        }
    }
}

/// Replacing the entry of an id changes only that id in the map.
proof fn lemma_sizes_map_update(s: Seq<ItemSizes>, k: int, e: ItemSizes)
    requires
        ids_unique(s),
        0 <= k < s.len(),
        e.0 == s[k].0,
    ensures
        sizes_map(s.update(k, e)) == sizes_map(s).insert(e.0, (e.1, e.2)),
        ids_unique(s.update(k, e)),
    decreases s.len(),
{
    let t = s.update(k, e);
    if k == s.len() - 1 {
        assert(t.drop_last() =~= s.drop_last());
        assert(sizes_map(t) =~= sizes_map(s).insert(e.0, (e.1, e.2)));
    } else {
        assert(t.drop_last() =~= s.drop_last().update(k, e));
        lemma_sizes_map_update(s.drop_last(), k, e);
        assert(s.last().0 != e.0);
        assert(sizes_map(t) =~= sizes_map(s).insert(e.0, (e.1, e.2)));
    }
}

proof fn lemma_sizes_map_get(s: Seq<ItemSizes>, k: int)
    requires
        ids_unique(s),
        0 <= k < s.len(),
    ensures
        sizes_map(s).contains_key(s[k].0),
        sizes_map(s)[s[k].0] == (s[k].1, s[k].2),
    decreases s.len(),
{
    if k < s.len() - 1 {
        lemma_sizes_map_get(s.drop_last(), k);
        assert(s.drop_last()[k] == s[k]);
    }
}

/// The sizes reported per item while the start-up dialog runs.
pub struct ItemMetrics {
    pub entries: Vec<ItemSizes>,
}

impl ItemMetrics {
    pub open spec fn wf(&self) -> bool {
        ids_unique(self.entries@)
    }

    /// The sizes by id.
    pub open spec fn view(&self) -> Map<u32, (u64, u64)> {
        sizes_map(self.entries@)
    }

    /// No sizes yet.
    pub fn new() -> (r: Self)
        ensures
            r.wf(),
            r.view() == Map::<u32, (u64, u64)>::empty(),
            r.entries@.len() == 0,
    {
        ItemMetrics { entries: Vec::new() }
    }

    fn position(&self, id: u32) -> (r: Option<usize>)
        ensures
            match r {
                Some(k) => k < self.entries@.len() && self.entries@[k as int].0 == id,
                None => forall|k: int| 0 <= k < self.entries@.len() ==> self.entries@[k].0 != id,
            },
    {
        let mut k: usize = 0;
        while k < self.entries.len()
            invariant
                0 <= k <= self.entries@.len(),
                forall|j: int| 0 <= j < k ==> self.entries@[j].0 != id,
            decreases self.entries@.len() - k,
        {
            if self.entries[k].0 == id {
                return Some(k);
            }
            k += 1;
        }
        None
    }

    /// A scan of item `id` reported its sizes: they replace what was known of it.
    pub fn record_scan(&mut self, id: u32, logical: u64, disk: u64)
        requires
            old(self).wf(),
        ensures
            final(self).wf(),
            final(self).view() == old(self).view().insert(id, (logical, disk)),
    {
        match self.position(id) {
            Some(k) => {
                proof { lemma_sizes_map_update(self.entries@, k as int, (id, logical, disk)); }
                self.entries.set(k, (id, logical, disk));
            },
            None => {
                let ghost s = self.entries@;
                self.entries.push((id, logical, disk));
                proof {
                    assert(self.entries@.drop_last() =~= s);
                }
            },
        }
    }

    /// Item `id` now takes `disk` bytes on disk; an item that reported no
    /// scan yet is left out.
    pub fn record_disk(&mut self, id: u32, disk: u64)
        requires
            old(self).wf(),
        ensures
            final(self).wf(),
            old(self).view().contains_key(id) ==> final(self).view() == old(self).view().insert(
                id, (old(self).view()[id].0, disk)),
            !old(self).view().contains_key(id) ==> final(self).view() == old(self).view(),
    {
        proof { lemma_sizes_map_keys(self.entries@); }
        match self.position(id) {
            Some(k) => {
                let logical = self.entries[k].1;
                proof {
                    lemma_sizes_map_get(self.entries@, k as int);
                    lemma_sizes_map_update(self.entries@, k as int, (id, logical, disk));
                }
                self.entries.set(k, (id, logical, disk));
            },
            None => {
                proof {
                    if old(self).view().contains_key(id) {
                        let k = choose|k: int| 0 <= k < self.entries@.len() && self.entries@[k].0 == id;
                        assert(self.entries@[k].0 != id);
                    }
                }
            },
        }
    }

    /// The total logical size and size on disk over all items; `None` when a
    /// sum does not fit in 64 bits.
    pub fn totals(&self) -> (r: Option<(u64, u64)>)
        ensures
            ({
                let (l, d) = sizes_sum(self.entries@);
                &&& r is None <==> (l > u64::MAX || d > u64::MAX)
                &&& r matches Some((a, b)) ==> a == l && b == d
            }),
    {
        let mut l: u64 = 0;
        let mut d: u64 = 0;
        let mut over = false;
        let mut i: usize = 0;
        assert(self.entries@.take(0) =~= Seq::<ItemSizes>::empty());
        while i < self.entries.len()
            invariant
                0 <= i <= self.entries@.len(),
                !over ==> l as int == sizes_sum(self.entries@.take(i as int)).0
                    && d as int == sizes_sum(self.entries@.take(i as int)).1,
                over ==> sizes_sum(self.entries@.take(i as int)).0 > u64::MAX
                    || sizes_sum(self.entries@.take(i as int)).1 > u64::MAX,
            decreases self.entries@.len() - i,
        {
            let (_, a, b) = self.entries[i];
            proof {
                assert(self.entries@.take(i + 1).drop_last() =~= self.entries@.take(i as int));
            }
            if !over {
                match (l.checked_add(a), d.checked_add(b)) {
                    (Some(x), Some(y)) => {
                        l = x;
                        d = y;
                    },
                    _ => {
                        over = true;
                    },
                }
            }
            i += 1;
        }
        proof {
            assert(self.entries@.take(self.entries@.len() as int) =~= self.entries@);
            if over {
                lemma_sizes_sum_grows(self.entries@, i as int);
            }
        }
        if over {
            None
        } else {
            Some((l, d))
        }
    }
}

proof fn lemma_sizes_sum_grows(s: Seq<ItemSizes>, n: int)
    requires
        0 <= n <= s.len(),
    ensures
        sizes_sum(s.take(n)).0 <= sizes_sum(s).0,
        sizes_sum(s.take(n)).1 <= sizes_sum(s).1,
    decreases s.len(),
{
    if n < s.len() {
        assert(s.drop_last().take(n) =~= s.take(n));
        lemma_sizes_sum_grows(s.drop_last(), n);
    } else {
        assert(s.take(n) =~= s);
    }
}

/// "Scanning... N files".
pub open spec fn scanning_text(count: u64) -> Seq<u16> {
    (utf16_encode("Scanning... "@) + decimal(count as nat) + utf16_encode(" files"@)).push(0u16)
}

/// "Processing C / T files".
pub open spec fn processing_text(current: u64, total: u64) -> Seq<u16> {
    (utf16_encode("Processing "@) + decimal(current as nat) + utf16_encode(" / "@) + decimal(total as nat)
        + utf16_encode(" files"@)).push(0u16)
}

/// "Finished in Ss (N files)".
pub open spec fn finished_text(secs: u64, files: u64) -> Seq<u16> {
    (utf16_encode("Finished in "@) + decimal(secs as nat) + utf16_encode("s ("@) + decimal(files as nat)
        + utf16_encode(" files)"@)).push(0u16)
}

/// What the start-up dialog shows after a worker message.
pub enum RunUpdate {
    /// The message is not for this dialog.
    Nothing,
    /// The sizes changed: recompute the summary line; show `status` when there is one.
    Sizes { status: Option<Vec<u16>> },
    /// Move the progress bar and the taskbar to `current` of `total` and show `status`.
    Progress { current: u64, total: u64, status: Vec<u16> },
    /// Show the text.
    Status(Vec<u16>),
    /// The run is over: show `status`, relabel Cancel as "Close", clear the taskbar.
    Finished { status: Vec<u16> },
}

/// What the Cancel button does.
pub enum CancelEffect {
    /// Ask the running work to stop: show "Cancelling...", disable the button, pause the taskbar.
    Stop,
    /// Close the dialog.
    Close,
}

/// The start-up dialog's run: the sizes reported so far and the run's state.
pub struct StartupRun {
    pub metrics: ItemMetrics,
    pub state: ProcessingState,
}

impl StartupRun {
    /// A run that has just started.
    pub fn new() -> (r: Self)
        ensures
            r.metrics.wf(),
            r.metrics.view() == Map::<u32, (u64, u64)>::empty(),
            r.state == ProcessingState::Running,
    {
        StartupRun { metrics: ItemMetrics::new(), state: ProcessingState::Running }
    }

    /// Takes in a worker message; `elapsed_secs` and `total_files` are the
    /// run's duration and file count, read when the run finishes.
    pub fn on_message(&mut self, msg: UiMessage, elapsed_secs: u64, total_files: u64) -> (r: RunUpdate)
        requires
            old(self).metrics.wf(),
        ensures
            final(self).metrics.wf(),
            match msg {
                UiMessage::ScanProgress(id, logical, disk, count) => {
                    &&& final(self).metrics.view() == old(self).metrics.view().insert(id, (logical, disk))
                    &&& final(self).state == old(self).state
                    &&& r matches RunUpdate::Sizes { status: Some(t) } && t@ == scanning_text(count)
                },
                UiMessage::RowProgress(id, _, _, disk) | UiMessage::RowFinished(id, disk, _, _) => {
                    &&& old(self).metrics.view().contains_key(id) ==> final(self).metrics.view()
                        == old(self).metrics.view().insert(id, (old(self).metrics.view()[id].0, disk))
                    &&& !old(self).metrics.view().contains_key(id) ==> final(self).metrics.view()
                        == old(self).metrics.view()
                    &&& final(self).state == old(self).state
                    &&& r matches RunUpdate::Sizes { status: None }
                },
                UiMessage::Progress(cur, tot) => {
                    &&& *final(self) == *old(self)
                    &&& r matches RunUpdate::Progress { current, total, status }
                        && current == cur && total == tot && status@ == processing_text(cur, tot)
                },
                UiMessage::StatusText(t) => {
                    &&& *final(self) == *old(self)
                    &&& r matches RunUpdate::Status(s) && s@ == t@
                },
                UiMessage::Finished => {
                    &&& final(self).metrics == old(self).metrics
                    &&& final(self).state == ProcessingState::Idle
                    &&& r matches RunUpdate::Finished { status } && status@ == finished_text(elapsed_secs, total_files)
                },
                _ => *final(self) == *old(self) && r is Nothing,
            },
    {
        match msg {
            UiMessage::ScanProgress(id, logical, disk, count) => {
                self.metrics.record_scan(id, logical, disk);
                let mut t: Vec<u16> = Vec::new();
                push_str_units(&mut t, "Scanning... ");
                push_decimal(&mut t, count);
                push_str_units(&mut t, " files");
                t.push(0);
                RunUpdate::Sizes { status: Some(t) }
            },
            UiMessage::RowProgress(id, _, _, disk) => {
                self.metrics.record_disk(id, disk);
                RunUpdate::Sizes { status: None }
            },
            UiMessage::RowFinished(id, disk, _, _) => {
                self.metrics.record_disk(id, disk);
                RunUpdate::Sizes { status: None }
            },
            UiMessage::Progress(cur, tot) => {
                let mut t: Vec<u16> = Vec::new();
                push_str_units(&mut t, "Processing ");
                push_decimal(&mut t, cur);
                push_str_units(&mut t, " / ");
                push_decimal(&mut t, tot);
                push_str_units(&mut t, " files");
                t.push(0);
                RunUpdate::Progress { current: cur, total: tot, status: t }
            },
            UiMessage::StatusText(t) => RunUpdate::Status(t),
            UiMessage::Finished => {
                self.state = ProcessingState::Idle;
                let mut t: Vec<u16> = Vec::new();
                push_str_units(&mut t, "Finished in ");
                push_decimal(&mut t, elapsed_secs);
                push_str_units(&mut t, "s (");
                push_decimal(&mut t, total_files);
                push_str_units(&mut t, " files)");
                t.push(0);
                RunUpdate::Finished { status: t }
            },
            _ => RunUpdate::Nothing,
        }
    }

    /// A click on Cancel: a running run is asked to stop, otherwise the dialog closes.
    pub fn on_cancel(&mut self) -> (r: CancelEffect)
        ensures
            old(self).state == ProcessingState::Running ==> r is Stop && final(self).state == ProcessingState::Stopped,
            old(self).state != ProcessingState::Running ==> r is Close && final(self).state == old(self).state,
            final(self).metrics == old(self).metrics,
    {
        if self.state == ProcessingState::Running {
            self.state = ProcessingState::Stopped;
            CancelEffect::Stop
        } else {
            CancelEffect::Close
        }
    }
}

} // verus!
