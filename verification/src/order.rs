//! Ordering of the list rows by a column, ascending or descending; rows
//! that compare equal keep their previous order.
use vstd::prelude::*;
use crate::batch::AppState;
use crate::state::{BatchItem, BatchAction, BatchStatus};
use crate::wof::{CompressionState, algorithm_code};
use crate::text::collect_chars;

verus! {

pub open spec fn sign(x: int) -> int {
    if x < 0 {
        -1
    } else if x > 0 {
        1
    } else {
        0
    }
}

/// Lexicographic comparison by code point (the order in which `str` values compare).
pub open spec fn lex_order(a: Seq<char>, b: Seq<char>) -> int
    decreases a.len(),
{
    if a.len() == 0 {
        if b.len() == 0 {
            0
        } else {
            -1
        }
    } else if b.len() == 0 {
        1
    } else if (a[0] as u32) < (b[0] as u32) {
        -1
    } else if (a[0] as u32) > (b[0] as u32) {
        1
    } else {
        lex_order(a.drop_first(), b.drop_first())
    }
}

pub open spec fn state_rank(s: Option<CompressionState>) -> int {
    match s {
        Some(CompressionState::Specific(_)) => 1,
        Some(CompressionState::Mixed) => 2,
        _ => 0,
    }
}

pub open spec fn action_rank(a: BatchAction) -> int {
    match a {
        BatchAction::Compress => 0,
        BatchAction::Decompress => 1,
    }
}

pub open spec fn status_rank(s: BatchStatus) -> int {
    match s {
        BatchStatus::Pending => 0,
        BatchStatus::Processing => 1,
        BatchStatus::Complete => 2,
        BatchStatus::Error(_) => 3,
    }
}

/// The saved fraction of an item as numerator and (positive) denominator:
/// (logical - disk) / logical when something was saved, 0 / 1 otherwise.
pub open spec fn saved_fraction(logical: u64, disk: u64) -> (int, int) {
    if logical > 0 && disk < logical {
        ((logical - disk) as int, logical as int)
    } else {
        (0, 1)
    }
}

pub open spec fn ratio_order(a: BatchItem, b: BatchItem) -> int {
    let (n1, d1) = saved_fraction(a.logical_size, a.disk_size);
    let (n2, d2) = saved_fraction(b.logical_size, b.disk_size);
    sign(n1 * d2 - n2 * d1)
}

/// How two items compare on a list column (-1, 0 or 1); unknown columns compare equal.
pub open spec fn item_order(col: i32, a: BatchItem, b: BatchItem) -> int {
    if col == 0 {
        lex_order(a.path_lower@, b.path_lower@)
    } else if col == 1 {
        sign(state_rank(a.final_state) - state_rank(b.final_state))
    } else if col == 2 {
        sign(algorithm_code(a.algorithm) - algorithm_code(b.algorithm))
    } else if col == 3 {
        sign(action_rank(a.action) - action_rank(b.action))
    } else if col == 4 {
        sign(a.logical_size - b.logical_size)
    } else if col == 5 {
        sign(a.estimated_size - b.estimated_size)
    } else if col == 6 {
        sign(a.disk_size - b.disk_size)
    } else if col == 7 {
        ratio_order(a, b)
    } else if col == 8 {
        sign(a.progress.0 - b.progress.0)
    } else if col == 9 {
        sign(status_rank(a.status) - status_rank(b.status))
    } else {
        0
    }
}

/// How two rows compare in the requested direction.
pub open spec fn row_order(items: Seq<BatchItem>, col: i32, asc: bool, x: usize, y: usize) -> int {
    let c = item_order(col, items[x as int], items[y as int]);
    if asc {
        c
    } else {
        -c
    }
}

/// Where a row goes in an ordered list: before the first row that compares greater.
pub open spec fn insert_pos(s: Seq<usize>, x: usize, items: Seq<BatchItem>, col: i32, asc: bool) -> int
    decreases s.len(),
{
    if s.len() == 0 {
        0
    } else if row_order(items, col, asc, s[0], x) > 0 {
        0
    } else {
        1 + insert_pos(s.drop_first(), x, items, col, asc)
    }
}

/// The rows in stable order: each row is inserted after every row that does not
/// compare greater than it.
pub open spec fn stable_sort(xs: Seq<usize>, items: Seq<BatchItem>, col: i32, asc: bool) -> Seq<usize>
    decreases xs.len(),
{
    if xs.len() == 0 {
        xs
    } else {
        let s = stable_sort(xs.drop_last(), items, col, asc);
        s.insert(insert_pos(s, xs.last(), items, col, asc), xs.last())
    }
}

pub open spec fn rows_valid(rows: Seq<usize>, items: Seq<BatchItem>) -> bool {
    forall|i: int| 0 <= i < rows.len() ==> rows[i] < items.len()
}

// ---------------------------------------------------------------------------
// Laws of the order
// ---------------------------------------------------------------------------

proof fn lemma_insert_pos_bounds(s: Seq<usize>, x: usize, items: Seq<BatchItem>, col: i32, asc: bool)
    ensures
        0 <= insert_pos(s, x, items, col, asc) <= s.len(),
        forall|j: int| 0 <= j < insert_pos(s, x, items, col, asc) ==> row_order(items, col, asc, s[j], x) <= 0,
        insert_pos(s, x, items, col, asc) < s.len() ==> row_order(items, col, asc, s[insert_pos(s, x, items, col, asc)], x) > 0,
    decreases s.len(),
{
    if s.len() > 0 && row_order(items, col, asc, s[0], x) <= 0 {
        lemma_insert_pos_bounds(s.drop_first(), x, items, col, asc);
        let p = insert_pos(s, x, items, col, asc);
        assert forall|j: int| 0 <= j < p implies row_order(items, col, asc, s[j], x) <= 0 by {
            if j > 0 {
                assert(s[j] == s.drop_first()[j - 1]);
            }
        }
    }
}

/// Sorting only rearranges the rows.
pub proof fn lemma_stable_sort_permutes(xs: Seq<usize>, items: Seq<BatchItem>, col: i32, asc: bool)
    ensures
        stable_sort(xs, items, col, asc).to_multiset() == xs.to_multiset(),
        stable_sort(xs, items, col, asc).len() == xs.len(),
    decreases xs.len(),
{
    broadcast use vstd::seq_lib::group_to_multiset_ensures;
    if xs.len() > 0 {
        let d = xs.drop_last();
        let s = stable_sort(d, items, col, asc);
        lemma_stable_sort_permutes(d, items, col, asc);
        lemma_insert_pos_bounds(s, xs.last(), items, col, asc);
        let p = insert_pos(s, xs.last(), items, col, asc);
        s.insert_ensures(p, xs.last());
        vstd::seq_lib::lemma_multiset_commutative(s.take(p), s.skip(p));
        assert(s.insert(p, xs.last()) =~= s.take(p) + seq![xs.last()] + s.skip(p));
        assert(s =~= s.take(p) + s.skip(p));
        vstd::seq_lib::lemma_multiset_commutative(s.take(p) + seq![xs.last()], s.skip(p));
        vstd::seq_lib::lemma_multiset_commutative(s.take(p), seq![xs.last()]);
        assert(xs =~= d.push(xs.last()));
    }
}

proof fn lemma_lex_order(a: Seq<char>, b: Seq<char>, c: Seq<char>)
    ensures
        lex_order(a, b) == -lex_order(b, a),
        -1 <= lex_order(a, b) <= 1,
        lex_order(a, b) <= 0 && lex_order(b, c) <= 0 ==> lex_order(a, c) <= 0,
    decreases a.len(),
{
    if a.len() > 0 && b.len() > 0 && c.len() > 0 {
        lemma_lex_order(a.drop_first(), b.drop_first(), c.drop_first());
    } else if a.len() > 0 && b.len() > 0 {
        lemma_lex_order(a.drop_first(), b.drop_first(), c);
    }
}

proof fn lemma_ratio_order(a: BatchItem, b: BatchItem, c: BatchItem)
    ensures
        ratio_order(a, b) == -ratio_order(b, a),
        ratio_order(a, b) <= 0 && ratio_order(b, c) <= 0 ==> ratio_order(a, c) <= 0,
{
    let (n1, d1) = saved_fraction(a.logical_size, a.disk_size);
    let (n2, d2) = saved_fraction(b.logical_size, b.disk_size);
    let (n3, d3) = saved_fraction(c.logical_size, c.disk_size);
    assert(d1 > 0 && d2 > 0 && d3 > 0);
    assert(n1 * d2 <= n2 * d1 && n2 * d3 <= n3 * d2 ==> n1 * d3 <= n3 * d1) by (nonlinear_arith)
        requires d1 > 0, d2 > 0, d3 > 0;
}

/// Comparing by a column is a total preorder: it is antisymmetric and transitive.
pub proof fn lemma_item_order_preorder(col: i32, a: BatchItem, b: BatchItem, c: BatchItem)
    ensures
        item_order(col, a, b) == -item_order(col, b, a),
        -1 <= item_order(col, a, b) <= 1,
        item_order(col, a, a) == 0,
        item_order(col, a, b) <= 0 && item_order(col, b, c) <= 0 ==> item_order(col, a, c) <= 0,
{
    lemma_lex_order(a.path_lower@, b.path_lower@, c.path_lower@);
    lemma_lex_order(a.path_lower@, a.path_lower@, a.path_lower@);
    lemma_ratio_order(a, b, c);
    lemma_ratio_order(a, a, a);
}

proof fn lemma_row_order_preorder(items: Seq<BatchItem>, col: i32, asc: bool, x: usize, y: usize, z: usize)
    ensures
        row_order(items, col, asc, x, y) == -row_order(items, col, asc, y, x),
        row_order(items, col, asc, x, y) <= 0 && row_order(items, col, asc, y, z) <= 0
            ==> row_order(items, col, asc, x, z) <= 0,
{
    lemma_item_order_preorder(col, items[x as int], items[y as int], items[z as int]);
    lemma_item_order_preorder(col, items[z as int], items[y as int], items[x as int]);
    lemma_item_order_preorder(col, items[x as int], items[z as int], items[y as int]);
}

pub open spec fn is_ordered(ys: Seq<usize>, items: Seq<BatchItem>, col: i32, asc: bool) -> bool {
    forall|i: int, j: int| 0 <= i < j < ys.len() ==> row_order(items, col, asc, ys[i], ys[j]) <= 0
}

/// The sorted rows are in order: no row compares greater than a row after it.
pub proof fn lemma_stable_sort_ordered(xs: Seq<usize>, items: Seq<BatchItem>, col: i32, asc: bool)
    ensures
        is_ordered(stable_sort(xs, items, col, asc), items, col, asc),
    decreases xs.len(),
{
    if xs.len() > 0 {
        let d = xs.drop_last();
        let x = xs.last();
        let s = stable_sort(d, items, col, asc);
        lemma_stable_sort_ordered(d, items, col, asc);
        lemma_insert_pos_bounds(s, x, items, col, asc);
        let p = insert_pos(s, x, items, col, asc);
        let ys = s.insert(p, x);
        s.insert_ensures(p, x);
        assert forall|i: int, j: int| 0 <= i < j < ys.len() implies row_order(items, col, asc, ys[i], ys[j]) <= 0 by {
            if j < p {
                assert(ys[i] == s[i] && ys[j] == s[j]);
            } else if j == p {
                assert(ys[i] == s[i] && ys[j] == x);
            } else if i == p {
                assert(ys[i] == x && ys[j] == s[j - 1]);
                lemma_row_order_preorder(items, col, asc, s[p], x, s[j - 1]);
                lemma_row_order_preorder(items, col, asc, x, s[p], s[j - 1]);
                if j - 1 > p {
                    assert(row_order(items, col, asc, s[p], s[j - 1]) <= 0);
                } else {
                    lemma_item_order_preorder(col, items[s[p] as int], items[s[p] as int], items[s[p] as int]);
                }
            } else if i < p {
                assert(ys[i] == s[i] && ys[j] == s[j - 1]);
            } else {
                assert(ys[i] == s[i - 1] && ys[j] == s[j - 1]);
            }
        }
    }
}

/// Sorting is stable: of two distinct rows that compare equal, the one that
/// came first still comes first.
pub proof fn lemma_stable_sort_stable(xs: Seq<usize>, items: Seq<BatchItem>, col: i32, asc: bool, a: int, b: int)
    requires
        xs.no_duplicates(),
        0 <= a < b < xs.len(),
        row_order(items, col, asc, xs[a], xs[b]) == 0,
    ensures
        ({
            let ys = stable_sort(xs, items, col, asc);
            forall|p: int, q: int| 0 <= p < ys.len() && 0 <= q < ys.len() && ys[p] == xs[a] && ys[q] == xs[b] ==> p < q
        }),
    decreases xs.len(),
{
    broadcast use vstd::seq_lib::group_to_multiset_ensures;
    let d = xs.drop_last();
    let x = xs.last();
    let s = stable_sort(d, items, col, asc);
    let u = xs[a];
    let v = xs[b];
    lemma_stable_sort_permutes(d, items, col, asc);
    lemma_insert_pos_bounds(s, x, items, col, asc);
    let p0 = insert_pos(s, x, items, col, asc);
    let ys = s.insert(p0, x);
    s.insert_ensures(p0, x);
    assert(!d.contains(x)) by {
        if d.contains(x) {
            let k = choose|k: int| 0 <= k < d.len() && d[k] == x;
            assert(xs[k] == xs[xs.len() - 1]);
        }
    }
    assert(!s.contains(x)) by {
        assert(s.to_multiset().count(x) == d.to_multiset().count(x));
    }
    if b < xs.len() - 1 {
        assert(d[a] == u && d[b] == v);
        assert(d.no_duplicates()) by {
            assert forall|i: int, j: int| 0 <= i < d.len() && 0 <= j < d.len() && i != j implies d[i] != d[j] by {
                assert(d[i] == xs[i] && d[j] == xs[j]);
            }
        }
        lemma_stable_sort_stable(d, items, col, asc, a, b);
        assert(u != x && v != x);
        assert forall|p: int, q: int| 0 <= p < ys.len() && 0 <= q < ys.len() && ys[p] == u && ys[q] == v implies p < q by {
            let sp = if p < p0 { p } else { p - 1 };
            let sq = if q < p0 { q } else { q - 1 };
            assert(p != p0 && q != p0);
            assert(s[sp] == u && s[sq] == v);
            assert(sp < sq);
        }
    } else {
        assert(v == x);
        assert(u != x);
        assert forall|p: int, q: int| 0 <= p < ys.len() && 0 <= q < ys.len() && ys[p] == u && ys[q] == v implies p < q by {
            if q != p0 {
                if q < p0 {
                    assert(s[q] == x);
                } else {
                    assert(s[q - 1] == x);
                }
            }
            if p > p0 {
                let k = p - 1;
                assert(s[k] == u);
                lemma_stable_sort_ordered(d, items, col, asc);
                if k > p0 {
                    assert(row_order(items, col, asc, s[p0], s[k]) <= 0);
                }
                lemma_row_order_preorder(items, col, asc, s[p0], u, x);
                lemma_row_order_preorder(items, col, asc, u, u, x);
                lemma_item_order_preorder(col, items[u as int], items[u as int], items[u as int]);
            }
        }
    }
}

proof fn lemma_insert_pos_all_equal(s: Seq<usize>, x: usize, items: Seq<BatchItem>, col: i32, asc: bool)
    requires
        col > 9 || col < 0,
    ensures
        insert_pos(s, x, items, col, asc) == s.len(),
    decreases s.len(),
{
    if s.len() > 0 {
        lemma_insert_pos_all_equal(s.drop_first(), x, items, col, asc);
    }
}

/// Rows sorted by a column that does not exist keep their order.
pub proof fn lemma_unknown_column_keeps_order(xs: Seq<usize>, items: Seq<BatchItem>, col: i32, asc: bool)
    requires
        col > 9 || col < 0,
    ensures
        stable_sort(xs, items, col, asc) == xs,
    decreases xs.len(),
{
    if xs.len() > 0 {
        let d = xs.drop_last();
        lemma_unknown_column_keeps_order(d, items, col, asc);
        lemma_insert_pos_all_equal(d, xs.last(), items, col, asc);
        assert(d.insert(d.len() as int, xs.last()) =~= xs);
    }
}

/// Sorting by a size column puts the rows in order of that size: by the Size
/// column (4) of logical size, by Est. Size (5) of estimated size, by On Disk
/// (6) of size on disk, and by Progress (8) of files done; ascending gives
/// non-decreasing sizes, descending non-increasing ones.
pub proof fn lemma_sort_by_size_columns(xs: Seq<usize>, items: Seq<BatchItem>, col: i32, asc: bool, i: int, j: int)
    requires
        0 <= i < j < stable_sort(xs, items, col, asc).len(),
    ensures
        ({
            let ys = stable_sort(xs, items, col, asc);
            let a = items[ys[i] as int];
            let b = items[ys[j] as int];
            &&& col == 4 ==> (if asc { a.logical_size <= b.logical_size } else { a.logical_size >= b.logical_size })
            &&& col == 5 ==> (if asc { a.estimated_size <= b.estimated_size } else { a.estimated_size >= b.estimated_size })
            &&& col == 6 ==> (if asc { a.disk_size <= b.disk_size } else { a.disk_size >= b.disk_size })
            &&& col == 8 ==> (if asc { a.progress.0 <= b.progress.0 } else { a.progress.0 >= b.progress.0 })
        }),
{
    lemma_stable_sort_ordered(xs, items, col, asc);
    let ys = stable_sort(xs, items, col, asc);
    assert(row_order(items, col, asc, ys[i], ys[j]) <= 0);
}

/// Sorting by the Current (1), Algorithm (2) and Status (9) columns: when
/// ascending, rows in a mixed state come last, algorithms come in the order
/// of their codes, pending rows come first and rows in error last;
/// descending reverses each.
pub proof fn lemma_sort_by_kind_columns(xs: Seq<usize>, items: Seq<BatchItem>, col: i32, asc: bool, i: int, j: int)
    requires
        0 <= i < j < stable_sort(xs, items, col, asc).len(),
    ensures
        ({
            let ys = stable_sort(xs, items, col, asc);
            let lo = if asc { items[ys[i] as int] } else { items[ys[j] as int] };
            let hi = if asc { items[ys[j] as int] } else { items[ys[i] as int] };
            &&& col == 1 ==> (lo.final_state matches Some(CompressionState::Mixed)
                ==> hi.final_state matches Some(CompressionState::Mixed))
            &&& col == 2 ==> algorithm_code(lo.algorithm) <= algorithm_code(hi.algorithm)
            &&& col == 9 ==> (lo.status is Error ==> hi.status is Error)
            &&& col == 9 ==> (hi.status is Pending ==> lo.status is Pending)
        }),
{
    lemma_stable_sort_ordered(xs, items, col, asc);
    let ys = stable_sort(xs, items, col, asc);
    assert(row_order(items, col, asc, ys[i], ys[j]) <= 0);
    let lo = if asc { items[ys[i] as int] } else { items[ys[j] as int] };
    let hi = if asc { items[ys[j] as int] } else { items[ys[i] as int] };
    lemma_item_order_preorder(col, items[ys[i] as int], items[ys[j] as int], items[ys[j] as int]);
    assert(item_order(col, lo, hi) <= 0);
    if col == 1 {
        assert(state_rank(lo.final_state) <= state_rank(hi.final_state));
        if lo.final_state matches Some(CompressionState::Mixed) {
            assert(state_rank(lo.final_state) == 2);
            match hi.final_state {
                Some(CompressionState::Mixed) => {},
                Some(CompressionState::Specific(_)) => { assert(state_rank(hi.final_state) == 1); },
                _ => { assert(state_rank(hi.final_state) == 0); },
            }
        }
    }
    if col == 9 {
        assert(status_rank(lo.status) <= status_rank(hi.status));
        if hi.status is Pending {
            assert(status_rank(hi.status) == 0);
            assert(status_rank(lo.status) == 0);
            match lo.status {
                BatchStatus::Pending => {},
                BatchStatus::Processing => { assert(status_rank(lo.status) == 1); },
                BatchStatus::Complete => { assert(status_rank(lo.status) == 2); },
                BatchStatus::Error(_) => { assert(status_rank(lo.status) == 3); },
            }
        }
        if lo.status is Error {
            match hi.status {
                BatchStatus::Error(_) => {},
                BatchStatus::Pending => { assert(status_rank(hi.status) == 0); },
                BatchStatus::Processing => { assert(status_rank(hi.status) == 1); },
                BatchStatus::Complete => { assert(status_rank(hi.status) == 2); },
            }
        }
        assert(hi.status is Pending ==> lo.status is Pending);
        assert(lo.status is Error ==> hi.status is Error);
    }
}

/// Sorting by the Action column puts every Compress row before every
/// Decompress row when ascending, and after them when descending.
pub proof fn lemma_sort_by_action(xs: Seq<usize>, items: Seq<BatchItem>, asc: bool, i: int, j: int)
    requires
        0 <= i < j < stable_sort(xs, items, 3, asc).len(),
    ensures
        ({
            let ys = stable_sort(xs, items, 3, asc);
            let a = items[ys[i] as int];
            let b = items[ys[j] as int];
            &&& asc && a.action == BatchAction::Decompress ==> b.action == BatchAction::Decompress
            &&& !asc && a.action == BatchAction::Compress ==> b.action == BatchAction::Compress
        }),
{
    lemma_stable_sort_ordered(xs, items, 3, asc);
    let ys = stable_sort(xs, items, 3, asc);
    assert(row_order(items, 3, asc, ys[i], ys[j]) <= 0);
}

// ---------------------------------------------------------------------------
// Executable comparison and sort
// ---------------------------------------------------------------------------

pub(crate) fn lex_order_exec(a: &Vec<char>, b: &Vec<char>) -> (r: i8)
    ensures
        r as int == lex_order(a@, b@),
{
    let n = a.len();
    let m = b.len();
    let mut i: usize = 0;
    assert(a@.skip(0) =~= a@);
    assert(b@.skip(0) =~= b@);
    while i < n && i < m
        invariant
            n == a@.len(),
            m == b@.len(),
            0 <= i <= n,
            i <= m,
            lex_order(a@, b@) == lex_order(a@.skip(i as int), b@.skip(i as int)),
        decreases n - i,
    {
        let x = a[i] as u32;
        let y = b[i] as u32;
        assert(a@.skip(i as int)[0] == a@[i as int]);
        assert(b@.skip(i as int)[0] == b@[i as int]);
        if x < y {
            return -1;
        }
        if x > y {
            return 1;
        }
        assert(a@.skip(i as int).drop_first() =~= a@.skip(i + 1));
        assert(b@.skip(i as int).drop_first() =~= b@.skip(i + 1));
        i += 1;
    }
    if i < n {
        1
    } else if i < m {
        -1
    } else {
        0
    }
}

pub(crate) fn sign_of_u64(x: u64, y: u64) -> (r: i8)
    ensures
        r as int == sign(x - y),
{
    if x < y {
        -1
    } else if x > y {
        1
    } else {
        0
    }
}

pub(crate) fn sign_of_rank(x: u8, y: u8) -> (r: i8)
    ensures
        r as int == sign(x - y),
{
    if x < y {
        -1
    } else if x > y {
        1
    } else {
        0
    }
}

fn state_rank_exec(s: Option<CompressionState>) -> (r: u8)
    ensures
        r as int == state_rank(s),
{
    match s {
        Some(CompressionState::Specific(_)) => 1,
        Some(CompressionState::Mixed) => 2,
        _ => 0,
    }
}

pub(crate) fn action_rank_exec(a: BatchAction) -> (r: u8)
    ensures
        r as int == action_rank(a),
{
    match a {
        BatchAction::Compress => 0,
        BatchAction::Decompress => 1,
    }
}

pub(crate) fn status_rank_exec(s: &BatchStatus) -> (r: u8)
    ensures
        r as int == status_rank(*s),
{
    match s {
        BatchStatus::Pending => 0,
        BatchStatus::Processing => 1,
        BatchStatus::Complete => 2,
        BatchStatus::Error(_) => 3,
    }
}

fn saved_fraction_exec(logical: u64, disk: u64) -> (r: (u64, u64))
    ensures
        r.0 as int == saved_fraction(logical, disk).0,
        r.1 as int == saved_fraction(logical, disk).1,
{
    if logical > 0 && disk < logical {
        (logical - disk, logical)
    } else {
        (0, 1)
    }
}

fn ratio_order_exec(a: &BatchItem, b: &BatchItem) -> (r: i8)
    ensures
        r as int == ratio_order(*a, *b),
{
    let (n1, d1) = saved_fraction_exec(a.logical_size, a.disk_size);
    let (n2, d2) = saved_fraction_exec(b.logical_size, b.disk_size);
    assert((n1 as u128) * (d2 as u128) <= u128::MAX) by (nonlinear_arith)
        requires n1 <= u64::MAX, d2 <= u64::MAX;
    assert((n2 as u128) * (d1 as u128) <= u128::MAX) by (nonlinear_arith)
        requires n2 <= u64::MAX, d1 <= u64::MAX;
    let l: u128 = n1 as u128 * d2 as u128;
    let r: u128 = n2 as u128 * d1 as u128;
    if l < r {
        -1
    } else if l > r {
        1
    } else {
        0
    }
}

/// How two items compare on a list column.
pub fn compare_on_column(col: i32, a: &BatchItem, b: &BatchItem) -> (r: i8)
    ensures
        r as int == item_order(col, *a, *b),
{
    if col == 0 {
        let x = collect_chars(a.path_lower.as_str());
        let y = collect_chars(b.path_lower.as_str());
        lex_order_exec(&x, &y)
    } else if col == 1 {
        sign_of_rank(state_rank_exec(a.final_state), state_rank_exec(b.final_state))
    } else if col == 2 {
        sign_of_u64(a.algorithm.code() as u64, b.algorithm.code() as u64)
    } else if col == 3 {
        sign_of_rank(action_rank_exec(a.action), action_rank_exec(b.action))
    } else if col == 4 {
        sign_of_u64(a.logical_size, b.logical_size)
    } else if col == 5 {
        sign_of_u64(a.estimated_size, b.estimated_size)
    } else if col == 6 {
        sign_of_u64(a.disk_size, b.disk_size)
    } else if col == 7 {
        ratio_order_exec(a, b)
    } else if col == 8 {
        sign_of_u64(a.progress.0, b.progress.0)
    } else if col == 9 {
        sign_of_rank(status_rank_exec(&a.status), status_rank_exec(&b.status))
    } else {
        0
    }
}

fn row_order_exec(items: &Vec<BatchItem>, col: i32, asc: bool, x: usize, y: usize) -> (r: i8)
    requires
        x < items@.len(),
        y < items@.len(),
    ensures
        r as int == row_order(items@, col, asc, x, y),
{
    let c = compare_on_column(col, &items[x], &items[y]);
    proof { lemma_item_order_preorder(col, items@[x as int], items@[y as int], items@[y as int]); }
    if asc {
        c
    } else {
        -c
    }
}

impl AppState {
    /// Orders the list rows by the sort column and direction; does nothing
    /// while the list is unsorted (negative column).
    pub fn sort_filtered_items(&mut self)
        requires
            old(self).sort_column < 0 || rows_valid(old(self).filtered_items@, old(self).batch_items@),
        ensures
            old(self).sort_column < 0 ==> final(self).filtered_items == old(self).filtered_items,
            old(self).sort_column >= 0 ==> final(self).filtered_items@ == stable_sort(
                old(self).filtered_items@, old(self).batch_items@, old(self).sort_column, old(self).sort_ascending),
            final(self).batch_items == old(self).batch_items,
            final(self).processing_queue == old(self).processing_queue,
            final(self).search_state == old(self).search_state,
            final(self).next_item_id == old(self).next_item_id,
            final(self).global_state == old(self).global_state,
            final(self).sort_column == old(self).sort_column,
            final(self).sort_ascending == old(self).sort_ascending,
            final(self).pending_ipc_ids == old(self).pending_ipc_ids,
            final(self).logs == old(self).logs,
            final(self).theme == old(self).theme,
            final(self).ipc_active == old(self).ipc_active,
            final(self).active_lock_dialog == old(self).active_lock_dialog,
            final(self).ignored_lock_processes == old(self).ignored_lock_processes,
            final(self).force_compress == old(self).force_compress,
            final(self).enable_force_stop == old(self).enable_force_stop,
            final(self).low_power_mode == old(self).low_power_mode,
    {
        if self.sort_column < 0 {
            return;
        }
        let col = self.sort_column;
        let asc = self.sort_ascending;
        let ghost items = self.batch_items@;
        let ghost xs = self.filtered_items@;
        let mut out: Vec<usize> = Vec::new();
        let n = self.filtered_items.len();
        let mut k: usize = 0;
        while k < n
            invariant
                n == xs.len(),
                xs == self.filtered_items@,
                items == self.batch_items@,
                col == self.sort_column,
                asc == self.sort_ascending,
                rows_valid(xs, items),
                0 <= k <= n,
                out@ == stable_sort(xs.take(k as int), items, col, asc),
                rows_valid(out@, items),
            decreases n - k,
        {
            let x = self.filtered_items[k];
            let ghost s = out@;
            let m = out.len();
            let mut j: usize = 0;
            assert(s.skip(0) =~= s);
            while j < m && row_order_exec(&self.batch_items, col, asc, out[j], x) <= 0
                invariant
                    m == out@.len(),
                    out@ == s,
                    items == self.batch_items@,
                    rows_valid(out@, items),
                    x < items.len(),
                    0 <= j <= m,
                    insert_pos(s, x, items, col, asc) == j + insert_pos(s.skip(j as int), x, items, col, asc),
                decreases m - j,
            {
                assert(s.skip(j as int)[0] == s[j as int]);
                assert(s.skip(j as int).drop_first() =~= s.skip(j + 1));
                j += 1;
            }
            proof {
                if j < m {
                    assert(s.skip(j as int)[0] == s[j as int]);
                }
                assert(insert_pos(s.skip(j as int), x, items, col, asc) == 0);
                assert(xs.take(k + 1).drop_last() =~= xs.take(k as int));
                lemma_insert_pos_bounds(s, x, items, col, asc);
            }
            out.insert(j, x);
            proof {
                assert forall|i: int| 0 <= i < out@.len() implies out@[i] < items.len() by {
                    if i < j {
                        assert(out@[i] == s[i]);
                    } else if i > j {
                        assert(out@[i] == s[i - 1]);
                    }
                }
            }
            k += 1;
        }
        proof {
            assert(xs.take(n as int) =~= xs);
        }
        self.filtered_items = out;
    }
}

} // verus!
