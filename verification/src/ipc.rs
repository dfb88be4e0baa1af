//! Items handed over from outside: by another instance of the program or on
//! the command line at start-up. They join the batch with their own algorithm
//! and action and are selected together once the burst is over.
use vstd::prelude::*;
use crate::batch::AppState;
use crate::handlers::has_path;
use crate::state::{BatchAction, BatchItem};
use crate::wof::WofAlgorithm;
use crate::text::lowercase;

verus! {

/// A handed-over entry as the contracts see it: path, algorithm, action.
pub type Entry = (Seq<char>, WofAlgorithm, BatchAction);

/// A fresh item for an entry handed over from outside: like any new item,
/// but with the entry's algorithm and action.
pub open spec fn is_external_item(it: BatchItem, id: u32, path: Seq<char>, algorithm: WofAlgorithm, action: BatchAction) -> bool {
    &&& it.id == id
    &&& it.path@ == path
    &&& it.path_lower@ == lowercase(path)
    &&& it.algorithm == algorithm
    &&& it.action == action
    &&& it.status is Pending
    &&& it.status_override is None
    &&& it.final_state is None
    &&& it.progress == (0u64, 0u64)
    &&& it.logical_size == 0
    &&& it.disk_size == 0
    &&& it.estimated_size == 0
    &&& it.estimation_cache@ == Map::<u32, u64>::empty()
}

/// Whether one of the entries has path `p`.
pub open spec fn entries_have_path(es: Seq<Entry>, p: Seq<char>) -> bool {
    exists|j: int| 0 <= j < es.len() && #[trigger] es[j].0 == p
}

/// The entries that handing over `es` in order really adds: each whose path
/// is neither in the batch nor in an entry added earlier.
pub open spec fn entries_added(items: Seq<BatchItem>, es: Seq<Entry>) -> Seq<Entry>
    decreases es.len(),
{
    if es.len() == 0 {
        Seq::empty()
    } else {
        let prev = entries_added(items, es.drop_last());
        let e = es.last();
        if has_path(items, e.0) || entries_have_path(prev, e.0) {
            prev
        } else {
            prev.push(e)
        }
    }
}

proof fn lemma_entries_added_len(items: Seq<BatchItem>, es: Seq<Entry>)
    ensures
        entries_added(items, es).len() <= es.len(),
    decreases es.len(),
{
    if es.len() > 0 {
        lemma_entries_added_len(items, es.drop_last());
    }
}

/// The entries as the contracts see them.
pub open spec fn entries_view(items: Seq<(String, WofAlgorithm, BatchAction)>) -> Seq<Entry> {
    items.map_values(|e: (String, WofAlgorithm, BatchAction)| (e.0@, e.1, e.2))
}

impl AppState {
    /// Adds an item handed over from outside unless its path is already in the
    /// batch; the new item gets the given algorithm and action. Its id is kept
    /// for selection when the window's controls exist.
    pub fn receive_external_item(
        &mut self,
        path: String,
        algorithm: WofAlgorithm,
        action: BatchAction,
        has_controls: bool,
    ) -> (r: Option<u32>)
        requires
            old(self).next_item_id < u32::MAX,
        ensures
            has_path(old(self).batch_items@, path@) ==> r is None && *final(self) == *old(self),
            !has_path(old(self).batch_items@, path@) ==> ({
                let it = final(self).batch_items@.last();
                &&& is_external_item(it, old(self).next_item_id, path@, algorithm, action)
                &&& r == Some(old(self).next_item_id)
                &&& final(self).batch_items@.drop_last() == old(self).batch_items@
                &&& final(self).batch_items@.len() == old(self).batch_items@.len() + 1
                &&& it.id == old(self).next_item_id
                &&& it.path@ == path@
                &&& it.algorithm == algorithm
                &&& it.action == action
                &&& final(self).next_item_id == old(self).next_item_id + 1
                &&& final(self).pending_ipc_ids@ == if has_controls {
                    old(self).pending_ipc_ids@.push(old(self).next_item_id)
                } else {
                    old(self).pending_ipc_ids@
                }
            }),
            old(self).wf() ==> final(self).wf(),
            final(self).ipc_active == old(self).ipc_active,
    {
        if self.has_path(&path) {
            return None;
        }
        let id = self.add_batch_item(path);
        let last = self.batch_items.len() - 1;
        self.batch_items[last].algorithm = algorithm;
        self.batch_items[last].action = action;
        if has_controls {
            self.pending_ipc_ids.push(id);
        }
        proof {
            assert(self.batch_items@.drop_last() =~= old(self).batch_items@);
        }
        Some(id)
    }

    /// Adds the items given at start-up, in order, as `receive_external_item`
    /// would: an entry whose path is already in the batch or in an earlier
    /// entry is left out. The ids of the added items are returned and kept for
    /// selection, and a burst of handed-over items begins when there are any.
    pub fn add_startup_items(&mut self, items: Vec<(String, WofAlgorithm, BatchAction)>) -> (r: Vec<u32>)
        requires
            old(self).wf(),
            old(self).next_item_id + items@.len() < u32::MAX,
        ensures
            final(self).wf(),
            items@.len() > 0 ==> final(self).ipc_active,
            items@.len() == 0 ==> final(self).ipc_active == old(self).ipc_active,
            ({
                let added = entries_added(old(self).batch_items@, entries_view(items@));
                let n = old(self).batch_items@.len();
                &&& final(self).batch_items@.len() == n + added.len()
                &&& final(self).batch_items@.take(n as int) == old(self).batch_items@
                &&& forall|k: int| 0 <= k < added.len() ==> is_external_item(
                    #[trigger] final(self).batch_items@[n + k], (old(self).next_item_id + k) as u32,
                    added[k].0, added[k].1, added[k].2)
                &&& final(self).next_item_id == old(self).next_item_id + added.len()
                &&& r@.len() == added.len()
                &&& forall|k: int| 0 <= k < added.len() ==> #[trigger] r@[k] == old(self).next_item_id + k
            }),
            final(self).pending_ipc_ids@ == old(self).pending_ipc_ids@ + r@,
    {
        if items.len() > 0 {
            self.ipc_active = true;
        }
        let ghost ipc0 = self.ipc_active;
        let ghost base = self.batch_items@;
        let ghost n = base.len();
        let ghost pend0 = self.pending_ipc_ids@;
        let ghost views = entries_view(items@);
        let ghost id0 = old(self).next_item_id;
        let mut added_ids: Vec<u32> = Vec::new();
        let m = items.len();
        let mut i: usize = 0;
        while i < m
            invariant
                m == items@.len(),
                views == entries_view(items@),
                base == old(self).batch_items@,
                n == base.len(),
                id0 == old(self).next_item_id,
                id0 + m < u32::MAX,
                0 <= i <= m,
                self.wf(),
                self.ipc_active == ipc0,
                ({
                    let added = entries_added(base, views.take(i as int));
                    &&& self.batch_items@.len() == n + added.len()
                    &&& self.batch_items@.take(n as int) == base
                    &&& forall|k: int| 0 <= k < added.len() ==> is_external_item(
                        #[trigger] self.batch_items@[n + k], (id0 + k) as u32, added[k].0, added[k].1, added[k].2)
                    &&& self.next_item_id == id0 + added.len()
                    &&& added_ids@.len() == added.len()
                    &&& forall|k: int| 0 <= k < added.len() ==> #[trigger] added_ids@[k] == id0 + k
                    &&& added.len() <= i
                }),
                self.pending_ipc_ids@ == pend0 + added_ids@,
            decreases m - i,
        {
            let ghost added = entries_added(base, views.take(i as int));
            let path = items[i].0.clone();
            let algorithm = items[i].1;
            let action = items[i].2;
            proof {
                assert(views.take(i + 1).drop_last() =~= views.take(i as int));
                assert(views.take(i + 1).last() == (path@, algorithm, action));
                assert(has_path(self.batch_items@, path@) <==> (has_path(base, path@) || entries_have_path(added, path@))) by {
                    let q = path@;
                    if has_path(self.batch_items@, q) {
                        let j = choose|j: int| 0 <= j < self.batch_items@.len() && #[trigger] self.batch_items@[j].path@ == q;
                        if j < n {
                            assert(self.batch_items@.take(n as int)[j] == self.batch_items@[j]);
                            assert(base[j].path@ == q);
                        } else {
                            assert(is_external_item(self.batch_items@[n + (j - n)], (id0 + (j - n)) as u32,
                                added[j - n].0, added[j - n].1, added[j - n].2));
                            assert(added[j - n].0 == q);
                        }
                    }
                    if has_path(base, q) {
                        let j = choose|j: int| 0 <= j < base.len() && #[trigger] base[j].path@ == q;
                        assert(self.batch_items@.take(n as int)[j] == self.batch_items@[j]);
                        assert(self.batch_items@[j].path@ == q);
                    }
                    if entries_have_path(added, q) {
                        let j = choose|j: int| 0 <= j < added.len() && #[trigger] added[j].0 == q;
                        assert(is_external_item(self.batch_items@[n + j], (id0 + j) as u32, added[j].0, added[j].1, added[j].2));
                        assert(self.batch_items@[n + j].path@ == q);
                    }
                }
                lemma_entries_added_len(base, views.take(i as int));
            }
            let ghost before = self.batch_items@;
            let ghost ids0 = added_ids@;
            match self.receive_external_item(path, algorithm, action, true) {
                Some(id) => {
                    added_ids.push(id);
                    proof {
                        let new_added = added.push((path@, algorithm, action));
                        assert(self.batch_items@.drop_last() == before);
                        assert(self.batch_items@.take(n as int) =~= before.take(n as int));
                        assert forall|k: int| 0 <= k < new_added.len() implies is_external_item(
                            #[trigger] self.batch_items@[n + k], (id0 + k) as u32, new_added[k].0, new_added[k].1, new_added[k].2) by {
                            if k < added.len() {
                                assert(self.batch_items@[n + k] == before[n + k]);
                            }
                        }
                        assert forall|k: int| 0 <= k < new_added.len() implies #[trigger] added_ids@[k] == id0 + k by {
                            if k < added.len() {
                                assert(added_ids@[k] == ids0[k]);
                            }
                        }
                        assert(self.pending_ipc_ids@ =~= pend0 + added_ids@);
                    }
                },
                None => {},
            }
            i += 1;
        }
        proof {
            assert(views.take(m as int) =~= views);
        }
        added_ids
    }

    /// The burst of handed-over items is over: the ids to select, after which
    /// none are kept.
    pub fn end_external_burst(&mut self) -> (r: Vec<u32>)
        ensures
            r@ == old(self).pending_ipc_ids@,
            final(self).pending_ipc_ids@.len() == 0,
            !final(self).ipc_active,
            final(self).batch_items == old(self).batch_items,
            final(self).next_item_id == old(self).next_item_id,
    {
        self.ipc_active = false;
        let mut ids: Vec<u32> = Vec::new();
        std::mem::swap(&mut ids, &mut self.pending_ipc_ids);
        ids
    }
}

} // verus!
