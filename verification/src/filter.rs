//! Which batch items the list shows for the current search settings, and
//! the summary line shown beside the search box.
use vstd::prelude::*;
use crate::batch::AppState;
use crate::state::{BatchItem, BatchStatus, SearchState, FilterColumn};
use crate::text::{lowercase, trimmed, contains_seq, trim, to_lowercase, str_contains, collect_chars};
use crate::matcher::{pattern_match, is_match};
use crate::order::{stable_sort, rows_valid};
use vstd::string::StringExecFns;
use crate::wide::{wz, utf16_encode, decimal, push_str_units, push_decimal};

verus! {

/// The lower-case status word the status filter searches in.
pub open spec fn status_word_lower(s: BatchStatus) -> Seq<char> {
    match s {
        BatchStatus::Pending => "pending"@,
        BatchStatus::Processing => "processing"@,
        BatchStatus::Complete => "complete"@,
        BatchStatus::Error(_) => "error"@,
    }
}

/// The status word a case-sensitive status filter searches in.
pub open spec fn status_word(s: BatchStatus) -> Seq<char> {
    match s {
        BatchStatus::Pending => "Pending"@,
        BatchStatus::Processing => "Processing"@,
        BatchStatus::Complete => "Complete"@,
        BatchStatus::Error(e) => "Error("@ + e@ + ")"@,
    }
}

/// The search text as the case-insensitive search uses it: trimmed, then lower-cased.
pub open spec fn filter_text_of(search: SearchState) -> Seq<char> {
    lowercase(trimmed(search.text@))
}

/// Whether an item passes the text part of the search.
pub open spec fn text_matches(item: BatchItem, search: SearchState) -> bool {
    text_matches_with(item, search, filter_text_of(search))
}

/// Whether an item passes the text part of the search, `filter_text` being
/// the trimmed and lower-cased search text.
pub open spec fn text_matches_with(item: BatchItem, search: SearchState, filter_text: Seq<char>) -> bool {
    let raw = search.text@;
    let hay_lower = match search.filter_column {
        FilterColumn::Path => item.path_lower@,
        FilterColumn::Status => status_word_lower(item.status),
    };
    let hay_raw = match search.filter_column {
        FilterColumn::Path => item.path@,
        FilterColumn::Status => status_word(item.status),
    };
    if raw.len() == 0 {
        true
    } else if search.use_regex && trimmed(raw).len() > 0 {
        if search.case_sensitive {
            pattern_match(raw, hay_raw)
        } else {
            pattern_match(filter_text, hay_lower)
        }
    } else if search.case_sensitive {
        contains_seq(hay_raw, raw)
    } else {
        contains_seq(hay_lower, filter_text)
    }
}

/// Whether an item passes the whole search: text, algorithm and size.
pub open spec fn item_visible(item: BatchItem, search: SearchState) -> bool {
    item_visible_with(item, search, filter_text_of(search))
}

/// Whether an item passes the whole search, `filter_text` being the trimmed
/// and lower-cased search text.
pub open spec fn item_visible_with(item: BatchItem, search: SearchState, filter_text: Seq<char>) -> bool {
    &&& text_matches_with(item, search, filter_text)
    &&& (search.algorithm_filter matches Some(a) ==> item.algorithm == a)
    &&& (search.size_filter == 1 ==> item.logical_size < 1_000_000)
    &&& (search.size_filter == 2 ==> item.logical_size > 100_000_000)
}

/// Indices, in order, of the first `n` items that pass the search.
pub open spec fn visible_rows(items: Seq<BatchItem>, search: SearchState, n: int) -> Seq<usize> {
    visible_rows_with(items, search, filter_text_of(search), n)
}

/// Indices, in order, of the first `n` items that pass the search, with
/// `filter_text` as the trimmed and lower-cased search text.
pub open spec fn visible_rows_with(items: Seq<BatchItem>, search: SearchState, filter_text: Seq<char>, n: int) -> Seq<usize>
    decreases n,
{
    if n <= 0 {
        Seq::empty()
    } else if item_visible_with(items[n - 1], search, filter_text) {
        visible_rows_with(items, search, filter_text, n - 1).push((n - 1) as usize)
    } else {
        visible_rows_with(items, search, filter_text, n - 1)
    }
}

proof fn lemma_visible_rows_valid(items: Seq<BatchItem>, search: SearchState, ft: Seq<char>, n: int)
    requires
        0 <= n <= items.len(),
    ensures
        forall|i: int| 0 <= i < visible_rows_with(items, search, ft, n).len()
            ==> visible_rows_with(items, search, ft, n)[i] < n,
        visible_rows_with(items, search, ft, n).len() <= n,
    decreases n,
{
    if n > 0 {
        lemma_visible_rows_valid(items, search, ft, n - 1);
    }
}

/// Every row the search shows passes its algorithm and size filters: with an
/// algorithm filter only items of that algorithm are shown; the small-size
/// filter shows only items under 1,000,000 bytes and the large-size filter
/// only items over 100,000,000 bytes.
pub proof fn lemma_visible_rows_pass_filters(items: Seq<BatchItem>, search: SearchState, ft: Seq<char>, n: int, i: int)
    requires
        0 <= n <= items.len(),
        items.len() <= usize::MAX,
        0 <= i < visible_rows_with(items, search, ft, n).len(),
    ensures
        ({
            let it = items[visible_rows_with(items, search, ft, n)[i] as int];
            &&& search.algorithm_filter matches Some(a) ==> it.algorithm == a
            &&& search.size_filter == 1 ==> it.logical_size < 1_000_000
            &&& search.size_filter == 2 ==> it.logical_size > 100_000_000
        }),
    decreases n,
{
    let rows = visible_rows_with(items, search, ft, n);
    let prev = visible_rows_with(items, search, ft, n - 1);
    if item_visible_with(items[n - 1], search, ft) {
        assert(rows == prev.push((n - 1) as usize));
        if i < prev.len() {
            assert(rows[i] == prev[i]);
            lemma_visible_rows_pass_filters(items, search, ft, n - 1, i);
        } else {
            assert(rows[i] as int == n - 1);
        }
    } else {
        assert(rows == prev);
        lemma_visible_rows_pass_filters(items, search, ft, n - 1, i);
    }
}

/// With no search text and no size filter, an algorithm filter shows exactly
/// the items of that algorithm.
pub proof fn lemma_algorithm_filter_exact(items: Seq<BatchItem>, search: SearchState, ft: Seq<char>, n: int, k: int)
    requires
        0 <= n <= items.len(),
        items.len() <= usize::MAX,
        0 <= k < n,
        search.text@.len() == 0,
        search.size_filter == 0,
        search.algorithm_filter is Some,
    ensures
        visible_rows_with(items, search, ft, n).contains(k as usize)
            <==> items[k].algorithm == search.algorithm_filter->0,
    decreases n,
{
    let rows = visible_rows_with(items, search, ft, n);
    let prev = visible_rows_with(items, search, ft, n - 1);
    lemma_visible_rows_valid(items, search, ft, n - 1);
    let shown_last = item_visible_with(items[n - 1], search, ft);
    assert(shown_last == (items[n - 1].algorithm == search.algorithm_filter->0));
    if shown_last {
        assert(rows == prev.push((n - 1) as usize));
    } else {
        assert(rows == prev);
    }
    if k < n - 1 {
        lemma_algorithm_filter_exact(items, search, ft, n - 1, k);
        if rows.contains(k as usize) {
            let j = choose|j: int| 0 <= j < rows.len() && rows[j] == k as usize;
            if j < prev.len() {
                assert(prev[j] == k as usize);
            } else {
                assert(rows[j] as int == n - 1);
            }
        }
        if prev.contains(k as usize) {
            let j = choose|j: int| 0 <= j < prev.len() && prev[j] == k as usize;
            assert(rows[j] == k as usize);
        }
    } else {
        if shown_last {
            assert(rows[prev.len() as int] == k as usize);
        } else {
            if rows.contains(k as usize) {
                let j = choose|j: int| 0 <= j < prev.len() && prev[j] == k as usize;
                assert(prev[j] < n - 1);
            }
        }
    }
}

/// The rows `refresh_file_list` shows, sorted or not, pass the algorithm and
/// size filters.
pub proof fn lemma_shown_rows_pass_filters(items: Seq<BatchItem>, search: SearchState, col: i32, asc: bool, j: int)
    requires
        items.len() <= usize::MAX,
        ({
            let rows = visible_rows(items, search, items.len() as int);
            0 <= j < (if col < 0 { rows } else { stable_sort(rows, items, col, asc) }).len()
        }),
    ensures
        ({
            let rows = visible_rows(items, search, items.len() as int);
            let shown = if col < 0 { rows } else { stable_sort(rows, items, col, asc) };
            let it = items[shown[j] as int];
            &&& search.algorithm_filter matches Some(a) ==> it.algorithm == a
            &&& search.size_filter == 1 ==> it.logical_size < 1_000_000
            &&& search.size_filter == 2 ==> it.logical_size > 100_000_000
        }),
{
    broadcast use vstd::seq_lib::group_to_multiset_ensures;
    let ft = filter_text_of(search);
    let rows = visible_rows(items, search, items.len() as int);
    let shown = if col < 0 { rows } else { stable_sort(rows, items, col, asc) };
    crate::order::lemma_stable_sort_permutes(rows, items, col, asc);
    assert(rows.contains(shown[j])) by {
        if col >= 0 {
            assert(shown.contains(shown[j]));
            assert(shown.to_multiset().count(shown[j]) > 0);
        } else {
            assert(rows[j] == shown[j]);
        }
    }
    let i = choose|i: int| 0 <= i < rows.len() && rows[i] == shown[j];
    lemma_visible_rows_pass_filters(items, search, ft, items.len() as int, i);
}

/// Summary of a refresh of the list.
#[derive(Clone, Copy, Debug, PartialEq, Eq, Structural)]
pub struct RefreshSummary {
    /// No search text, algorithm, size or pattern filter is in effect.
    pub is_default_state: bool,
    /// Rows shown.
    pub current_count: usize,
    /// Items in the batch.
    pub total_count: usize,
}

fn status_contains(status: &BatchStatus, needle: &str, lower: bool) -> (r: bool)
    ensures
        lower ==> r == contains_seq(status_word_lower(*status), needle@),
        !lower ==> r == contains_seq(status_word(*status), needle@),
{
    if lower {
        let w = match status {
            BatchStatus::Pending => "pending",
            BatchStatus::Processing => "processing",
            BatchStatus::Complete => "complete",
            BatchStatus::Error(_) => "error",
        };
        str_contains(w, needle)
    } else {
        let w = status_text(status);
        str_contains(w.as_str(), needle)
    }
}

fn status_text(status: &BatchStatus) -> (r: String)
    ensures
        r@ == status_word(*status),
{
    match status {
        BatchStatus::Pending => String::from_str("Pending"),
        BatchStatus::Processing => String::from_str("Processing"),
        BatchStatus::Complete => String::from_str("Complete"),
        BatchStatus::Error(e) => {
            let mut s = String::from_str("Error(");
            s.append(e.as_str());
            s.append(")");
            s
        },
    }
}

fn status_glob(status: &BatchStatus, pattern: &str, lower: bool) -> (r: bool)
    ensures
        lower ==> r == pattern_match(pattern@, status_word_lower(*status)),
        !lower ==> r == pattern_match(pattern@, status_word(*status)),
{
    if lower {
        let w = match status {
            BatchStatus::Pending => "pending",
            BatchStatus::Processing => "processing",
            BatchStatus::Complete => "complete",
            BatchStatus::Error(_) => "error",
        };
        is_match(pattern, w)
    } else {
        let w = status_text(status);
        is_match(pattern, w.as_str())
    }
}

fn text_matches_exec(item: &BatchItem, search: &SearchState, filter_text: &String, trimmed_empty: bool) -> (r: bool)
    requires
        trimmed_empty == (trimmed(search.text@).len() == 0),
    ensures
        r == text_matches_with(*item, *search, filter_text@),
{
    let raw = &search.text;
    if raw.as_str().is_empty() {
        return true;
    }
    let use_custom = search.use_regex && !trimmed_empty;
    match search.filter_column {
        FilterColumn::Path => {
            if use_custom {
                if search.case_sensitive {
                    is_match(raw.as_str(), item.path.as_str())
                } else {
                    is_match(filter_text.as_str(), item.path_lower.as_str())
                }
            } else if search.case_sensitive {
                str_contains(item.path.as_str(), raw.as_str())
            } else {
                str_contains(item.path_lower.as_str(), filter_text.as_str())
            }
        },
        FilterColumn::Status => {
            if use_custom {
                if search.case_sensitive {
                    status_glob(&item.status, raw.as_str(), false)
                } else {
                    status_glob(&item.status, filter_text.as_str(), true)
                }
            } else if search.case_sensitive {
                status_contains(&item.status, raw.as_str(), false)
            } else {
                status_contains(&item.status, filter_text.as_str(), true)
            }
        },
    }
}

/// Whether the item passes the search (text, algorithm and size filters).
fn item_visible_exec(item: &BatchItem, search: &SearchState, filter_text: &String, trimmed_empty: bool) -> (r: bool)
    requires
        trimmed_empty == (trimmed(search.text@).len() == 0),
    ensures
        r == item_visible_with(*item, *search, filter_text@),
{
    if !text_matches_exec(item, search, filter_text, trimmed_empty) {
        return false;
    }
    match search.algorithm_filter {
        Some(a) => {
            if item.algorithm != a {
                return false;
            }
        },
        None => {},
    }
    if search.size_filter == 1 {
        item.logical_size < 1_000_000
    } else if search.size_filter == 2 {
        item.logical_size > 100_000_000
    } else {
        true
    }
}

impl AppState {
    /// The indices, in order, of the items that pass the search, given the
    /// search text already trimmed and lower-cased as `filter_text`.
    pub fn visible_rows_for(&self, filter_text: &String) -> (r: Vec<usize>)
        ensures
            r@ == visible_rows_with(self.batch_items@, self.search_state, filter_text@, self.batch_items@.len() as int),
            rows_valid(r@, self.batch_items@),
    {
        let trimmed_text = trim(self.search_state.text.as_str());
        let trimmed_empty = trimmed_text.as_str().is_empty();
        let mut rows: Vec<usize> = Vec::new();
        let n = self.batch_items.len();
        let mut i: usize = 0;
        while i < n
            invariant
                n == self.batch_items@.len(),
                0 <= i <= n,
                trimmed_empty == (trimmed(self.search_state.text@).len() == 0),
                rows@ == visible_rows_with(self.batch_items@, self.search_state, filter_text@, i as int),
            decreases n - i,
        {
            if item_visible_exec(&self.batch_items[i], &self.search_state, filter_text, trimmed_empty) {
                rows.push(i);
            }
            i += 1;
        }
        proof { lemma_visible_rows_valid(self.batch_items@, self.search_state, filter_text@, n as int); }
        rows
    }

    /// Recomputes the rows the list shows from the search settings and orders
    /// them by the sort column; tells how many rows and items there are.
    pub fn refresh_file_list(&mut self) -> (r: RefreshSummary)
        ensures
            old(self).sort_column < 0 ==> final(self).filtered_items@ == visible_rows(
                old(self).batch_items@, old(self).search_state, old(self).batch_items@.len() as int),
            old(self).sort_column >= 0 ==> final(self).filtered_items@ == stable_sort(
                visible_rows(old(self).batch_items@, old(self).search_state, old(self).batch_items@.len() as int),
                old(self).batch_items@, old(self).sort_column, old(self).sort_ascending),
            r.current_count == final(self).filtered_items@.len(),
            r.total_count == old(self).batch_items@.len(),
            r.current_count <= r.total_count,
            r.is_default_state == (trimmed(old(self).search_state.text@).len() == 0
                && old(self).search_state.algorithm_filter is None
                && old(self).search_state.size_filter == 0 && !old(self).search_state.use_regex),
            final(self).batch_items == old(self).batch_items,
            final(self).search_state == old(self).search_state,
            final(self).processing_queue == old(self).processing_queue,
            final(self).next_item_id == old(self).next_item_id,
            final(self).global_state == old(self).global_state,
            final(self).sort_column == old(self).sort_column,
            final(self).sort_ascending == old(self).sort_ascending,
            final(self).pending_ipc_ids == old(self).pending_ipc_ids,
            final(self).logs == old(self).logs,
            final(self).theme == old(self).theme,
            final(self).ipc_active == old(self).ipc_active,
            final(self).active_lock_dialog == old(self).active_lock_dialog,
            final(self).ignored_lock_processes == old(self).ignored_lock_processes,
            final(self).force_compress == old(self).force_compress,
            final(self).enable_force_stop == old(self).enable_force_stop,
            final(self).low_power_mode == old(self).low_power_mode,
    {
        let trimmed_text = trim(self.search_state.text.as_str());
        let filter_text = to_lowercase(trimmed_text.as_str());
        let trimmed_empty = trimmed_text.as_str().is_empty();
        let rows = self.visible_rows_for(&filter_text);
        proof {
            lemma_visible_rows_valid(self.batch_items@, self.search_state, filter_text@, self.batch_items@.len() as int);
            crate::order::lemma_stable_sort_permutes(rows@, self.batch_items@, self.sort_column, self.sort_ascending);
        }
        let is_default_state = trimmed_empty && self.search_state.algorithm_filter.is_none()
            && self.search_state.size_filter == 0 && !self.search_state.use_regex;
        self.filtered_items = rows;
        self.sort_filtered_items();
        RefreshSummary {
            is_default_state,
            current_count: self.filtered_items.len(),
            total_count: self.batch_items.len(),
        }
    }
}

/// The summary line for a refresh: "Ready.", "Ready. N items loaded.",
/// "No matching items found." or "Found N matching items.", null-terminated.
pub fn results_message(summary: RefreshSummary) -> (r: Vec<u16>)
    requires
        summary.current_count <= u32::MAX,
        summary.total_count <= u32::MAX,
    ensures
        summary.is_default_state && summary.total_count == 0 ==> r@ == wz("Ready."@),
        summary.is_default_state && summary.total_count != 0 ==> r@ == (utf16_encode("Ready. "@)
            + decimal(summary.total_count as nat) + utf16_encode(" items loaded."@)).push(0u16),
        !summary.is_default_state && summary.current_count == 0 ==> r@ == wz("No matching items found."@),
        !summary.is_default_state && summary.current_count != 0 ==> r@ == (utf16_encode("Found "@)
            + decimal(summary.current_count as nat) + utf16_encode(" matching items."@)).push(0u16),
{
    let mut out: Vec<u16> = Vec::new();
    if summary.is_default_state {
        if summary.total_count == 0 {
            push_str_units(&mut out, "Ready.");
        } else {
            push_str_units(&mut out, "Ready. ");
            push_decimal(&mut out, summary.total_count as u64);
            push_str_units(&mut out, " items loaded.");
        }
    } else if summary.current_count == 0 {
        push_str_units(&mut out, "No matching items found.");
    } else {
        push_str_units(&mut out, "Found ");
        push_decimal(&mut out, summary.current_count as u64);
        push_str_units(&mut out, " matching items.");
    }
    out.push(0);
    out
}

} // verus!
