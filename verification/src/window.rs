//! Logic of the main window: the list's sort callback, the payload another
//! instance hands over, the text of each list cell, the combo boxes'
//! meaning, and the "file is locked" prompt bookkeeping.
use vstd::prelude::*;
use crate::batch::{AppState, index_of_id, lemma_index_of_id, ids_valid};
use crate::state::{BatchItem, BatchAction, BatchStatus, ProcessingState, AppTheme, FilterColumn, cached_estimate};
use crate::wof::{WofAlgorithm, CompressionState, algorithm_name};
use crate::order::{lex_order, sign, action_rank, status_rank, lex_order_exec, sign_of_u64, sign_of_rank,
    action_rank_exec, status_rank_exec};
use crate::text::{lowercase, to_lowercase, collect_chars, string_from_chars};
use crate::wide::{wz, utf16_encode, decimal, to_wstring, push_str_units, push_decimal, utf16_decode_lossy,
    from_utf16_lossy, saved_per_mille, calculate_ratio_string};
use crate::handlers::has_path;

verus! {

// ---------------------------------------------------------------------------
// Sort callback of the list control
// ---------------------------------------------------------------------------

/// Rank of an algorithm in the list control's own sort (XPRESS4K first, then
/// XPRESS8K, XPRESS16K, LZX, LZNT1).
pub open spec fn algorithm_rank(a: WofAlgorithm) -> int {
    match a {
        WofAlgorithm::Xpress4K => 0,
        WofAlgorithm::Xpress8K => 1,
        WofAlgorithm::Xpress16K => 2,
        WofAlgorithm::Lzx => 3,
        WofAlgorithm::Lznt1 => 4,
    }
}

/// How the list control's sort callback orders two items on a column.
pub open spec fn callback_order(col: i32, a: BatchItem, b: BatchItem) -> int {
    if col == 0 {
        lex_order(lowercase(a.path@), lowercase(b.path@))
    } else if col == 2 {
        sign(algorithm_rank(a.algorithm) - algorithm_rank(b.algorithm))
    } else if col == 3 {
        sign(action_rank(a.action) - action_rank(b.action))
    } else if col == 4 {
        sign(a.logical_size - b.logical_size)
    } else if col == 5 {
        sign(a.estimated_size - b.estimated_size)
    } else if col == 6 {
        sign(a.disk_size - b.disk_size)
    } else if col == 8 {
        sign(status_rank(a.status) - status_rank(b.status))
    } else {
        0
    }
}

fn algorithm_rank_exec(a: WofAlgorithm) -> (r: u8)
    ensures
        r as int == algorithm_rank(a),
{
    match a {
        WofAlgorithm::Xpress4K => 0,
        WofAlgorithm::Xpress8K => 1,
        WofAlgorithm::Xpress16K => 2,
        WofAlgorithm::Lzx => 3,
        WofAlgorithm::Lznt1 => 4,
    }
}

/// The list control's sort callback: compares the items with ids `id1` and
/// `id2` on the sort column (negated when descending); 0 when either is missing.
pub fn compare_items(state: &AppState, id1: u32, id2: u32) -> (r: i32)
    ensures
        ({
            let k1 = index_of_id(state.batch_items@, id1);
            let k2 = index_of_id(state.batch_items@, id2);
            if k1 < 0 || k2 < 0 {
                r == 0
            } else {
                let c = callback_order(state.sort_column, state.batch_items@[k1], state.batch_items@[k2]);
                r == if state.sort_ascending { c } else { -c }
            }
        }),
{
    let p1 = state.find_item_index(id1);
    let p2 = state.find_item_index(id2);
    proof { lemma_index_of_id(state.batch_items@, id1); lemma_index_of_id(state.batch_items@, id2); }
    match (p1, p2) {
        (Some(a), Some(b)) => {
            let i1 = &state.batch_items[a];
            let i2 = &state.batch_items[b];
            let col = state.sort_column;
            let c: i8 = if col == 0 {
                let l1 = to_lowercase(i1.path.as_str());
                let l2 = to_lowercase(i2.path.as_str());
                let x = collect_chars(l1.as_str());
                let y = collect_chars(l2.as_str());
                lex_order_exec(&x, &y)
            } else if col == 2 {
                sign_of_rank(algorithm_rank_exec(i1.algorithm), algorithm_rank_exec(i2.algorithm))
            } else if col == 3 {
                sign_of_rank(action_rank_exec(i1.action), action_rank_exec(i2.action))
            } else if col == 4 {
                sign_of_u64(i1.logical_size, i2.logical_size)
            } else if col == 5 {
                sign_of_u64(i1.estimated_size, i2.estimated_size)
            } else if col == 6 {
                sign_of_u64(i1.disk_size, i2.disk_size)
            } else if col == 8 {
                sign_of_rank(status_rank_exec(&i1.status), status_rank_exec(&i2.status))
            } else {
                0
            };
            if state.sort_ascending {
                c as i32
            } else {
                -(c as i32)
            }
        },
        _ => 0,
    }
}

// ---------------------------------------------------------------------------
// Payload handed over by another instance: "path|algorithm|action"
// ---------------------------------------------------------------------------

/// The `k`-th field of `s` split at `|`, if `s` has that many fields.
pub open spec fn bar_field(s: Seq<char>, k: nat) -> Option<Seq<char>>
    decreases k,
{
    let bar = first_bar(s);
    if k == 0 {
        Some(if bar < 0 { s } else { s.take(bar) })
    } else if bar < 0 {
        None
    } else {
        bar_field(s.skip(bar + 1), (k - 1) as nat)
    }
}

/// Position of the first `|` in `s`, or -1.
pub open spec fn first_bar(s: Seq<char>) -> int
    decreases s.len(),
{
    if s.len() == 0 {
        -1
    } else if s[0] == '|' {
        0
    } else if first_bar(s.drop_first()) < 0 {
        -1
    } else {
        1 + first_bar(s.drop_first())
    }
}

proof fn lemma_first_bar(s: Seq<char>)
    ensures
        -1 <= first_bar(s) < s.len(),
        first_bar(s) >= 0 ==> s[first_bar(s)] == '|',
        forall|i: int| 0 <= i < s.len() && (first_bar(s) < 0 || i < first_bar(s)) ==> s[i] != '|',
    decreases s.len(),
{
    if s.len() > 0 {
        lemma_first_bar(s.drop_first());
        assert forall|i: int| 0 < i < s.len() implies s[i] == s.drop_first()[i - 1] by {}
    }
}

/// `s` without leading and trailing NUL characters.
pub open spec fn trim_nuls(s: Seq<char>) -> Seq<char>
    decreases s.len(),
{
    if s.len() > 0 && s[0] == '\0' {
        trim_nuls(s.drop_first())
    } else if s.len() > 0 && s.last() == '\0' {
        trim_nuls(s.drop_last())
    } else {
        s
    }
}

pub open spec fn algorithm_from_name(name: Seq<char>) -> WofAlgorithm {
    if name == "xpress4k"@ {
        WofAlgorithm::Xpress4K
    } else if name == "xpress8k"@ {
        WofAlgorithm::Xpress8K
    } else if name == "xpress16k"@ {
        WofAlgorithm::Xpress16K
    } else if name == "lznt1"@ {
        WofAlgorithm::Lznt1
    } else if name == "lzx"@ {
        WofAlgorithm::Lzx
    } else {
        WofAlgorithm::Xpress8K
    }
}

/// A string with its ASCII capital letters made small.
pub open spec fn ascii_lower(s: Seq<char>) -> Seq<char> {
    s.map_values(|c: char| if 'A' <= c <= 'Z' { ((c as u32) + 32) as char } else { c })
}

/// Reading an algorithm's name, written in small letters, gives that
/// algorithm back: every algorithm can be asked for by its shown name, and
/// different names give different algorithms.
pub proof fn lemma_algorithm_name_roundtrip(a: WofAlgorithm, b: WofAlgorithm)
    ensures
        algorithm_from_name(ascii_lower(algorithm_name(a))) == a,
        a != b ==> ascii_lower(algorithm_name(a)) != ascii_lower(algorithm_name(b)),
{
    reveal_strlit("XPRESS4K");
    reveal_strlit("XPRESS8K");
    reveal_strlit("XPRESS16K");
    reveal_strlit("LZX");
    reveal_strlit("LZNT1");
    reveal_strlit("xpress4k");
    reveal_strlit("xpress8k");
    reveal_strlit("xpress16k");
    reveal_strlit("lzx");
    reveal_strlit("lznt1");
    assert(ascii_lower("XPRESS4K"@) =~= "xpress4k"@);
    assert(ascii_lower("XPRESS8K"@) =~= "xpress8k"@);
    assert(ascii_lower("XPRESS16K"@) =~= "xpress16k"@);
    assert(ascii_lower("LZX"@) =~= "lzx"@);
    assert(ascii_lower("LZNT1"@) =~= "lznt1"@);
    assert("xpress4k"@ != "xpress8k"@ && "xpress4k"@ != "xpress16k"@ && "xpress8k"@ != "xpress16k"@) by {
        assert("xpress4k"@[6] != "xpress8k"@[6]);
        assert("xpress4k"@.len() != "xpress16k"@.len());
    }
    assert("lzx"@ != "lznt1"@ && "lzx"@ != "xpress4k"@ && "lznt1"@ != "xpress4k"@) by {
        assert("lzx"@.len() != "lznt1"@.len());
        assert("lzx"@.len() != "xpress4k"@.len());
        assert("lznt1"@.len() != "xpress4k"@.len());
    }
    assert("lzx"@ != "xpress8k"@ && "lzx"@ != "xpress16k"@ && "lznt1"@ != "xpress8k"@ && "lznt1"@ != "xpress16k"@) by {
        assert("lzx"@.len() != "xpress8k"@.len());
        assert("lzx"@.len() != "xpress16k"@.len());
        assert("lznt1"@.len() != "xpress8k"@.len());
        assert("lznt1"@.len() != "xpress16k"@.len());
    }
}

pub open spec fn action_from_name(name: Seq<char>) -> BatchAction {
    if name == "decompress"@ {
        BatchAction::Decompress
    } else {
        BatchAction::Compress
    }
}

/// The item another instance asks for, read from the UTF-16 payload
/// "path|algorithm|action"; `None` when it has fewer than three fields.
pub open spec fn ipc_request(units: Seq<u16>) -> Option<(Seq<char>, WofAlgorithm, BatchAction)> {
    let s = trim_nuls(utf16_decode_lossy(units));
    match (bar_field(s, 0), bar_field(s, 1), bar_field(s, 2)) {
        (Some(p), Some(a), Some(c)) => Some((p, algorithm_from_name(a), action_from_name(c))),
        _ => None,
    }
}

pub(crate) fn trim_nul_range(cs: &Vec<char>) -> (r: (usize, usize))
    ensures
        r.0 <= r.1 <= cs@.len(),
        cs@.subrange(r.0 as int, r.1 as int) == trim_nuls(cs@),
{
    let mut a: usize = 0;
    let mut b: usize = cs.len();
    assert(cs@.subrange(0, cs@.len() as int) =~= cs@);
    while a < b && cs[a] == '\0'
        invariant
            0 <= a <= b <= cs@.len(),
            trim_nuls(cs@) == trim_nuls(cs@.subrange(a as int, b as int)),
            b == cs@.len(),
        decreases b - a,
    {
        assert(cs@.subrange(a as int, b as int).drop_first() =~= cs@.subrange(a + 1, b as int));
        a += 1;
    }
    while a < b && cs[b - 1] == '\0'
        invariant
            0 <= a <= b <= cs@.len(),
            trim_nuls(cs@) == trim_nuls(cs@.subrange(a as int, b as int)),
            a < b ==> cs@[a as int] != '\0',
        decreases b - a,
    {
        assert(cs@.subrange(a as int, b as int).drop_last() =~= cs@.subrange(a as int, b - 1));
        assert(cs@.subrange(a as int, b as int)[0] == cs@[a as int]);
        b -= 1;
    }
    proof {
        let t = cs@.subrange(a as int, b as int);
        if t.len() > 0 {
            assert(t[0] == cs@[a as int]);
            assert(t.last() == cs@[b - 1]);
        }
    }
    (a, b)
}

fn find_bar(cs: &Vec<char>, from: usize, to: usize) -> (r: Option<usize>)
    requires
        from <= to <= cs@.len(),
    ensures
        ({
            let s = cs@.subrange(from as int, to as int);
            match r {
                None => first_bar(s) == -1,
                Some(i) => from <= i < to && i - from == first_bar(s),
            }
        }),
{
    let ghost s = cs@.subrange(from as int, to as int);
    proof { lemma_first_bar(s); }
    let mut i = from;
    while i < to
        invariant
            from <= i <= to <= cs@.len(),
            s == cs@.subrange(from as int, to as int),
            forall|k: int| from <= k < i ==> cs@[k] != '|',
            -1 <= first_bar(s) < s.len(),
            first_bar(s) >= 0 ==> s[first_bar(s)] == '|',
            forall|k: int| 0 <= k < s.len() && (first_bar(s) < 0 || k < first_bar(s)) ==> s[k] != '|',
        decreases to - i,
    {
        if cs[i] == '|' {
            proof {
                assert(s[i - from] == '|');
                if first_bar(s) < 0 || i - from < first_bar(s) {
                    assert(false);
                }
                if i - from > first_bar(s) {
                    assert(cs@[from + first_bar(s)] == s[first_bar(s)]);
                }
            }
            return Some(i);
        }
        i += 1;
    }
    proof {
        if first_bar(s) >= 0 {
            assert(cs@[from + first_bar(s)] == s[first_bar(s)]);
        }
    }
    None
}

fn chars_equal_str(cs: &Vec<char>, from: usize, to: usize, s: &str) -> (r: bool)
    requires
        from <= to <= cs@.len(),
    ensures
        r == (cs@.subrange(from as int, to as int) == s@),
{
    let t = collect_chars(s);
    if t.len() != to - from {
        return false;
    }
    let mut i: usize = 0;
    while i < t.len()
        invariant
            t@ == s@,
            t@.len() == to - from,
            from <= to <= cs@.len(),
            0 <= i <= t@.len(),
            forall|k: int| 0 <= k < i ==> cs@[from + k] == t@[k],
        decreases t@.len() - i,
    {
        if cs[from + i] != t[i] {
            assert(cs@.subrange(from as int, to as int)[i as int] != s@[i as int]);
            return false;
        }
        i += 1;
    }
    assert(cs@.subrange(from as int, to as int) =~= s@);
    true
}

fn algorithm_by_name(cs: &Vec<char>, from: usize, to: usize) -> (r: WofAlgorithm)
    requires
        from <= to <= cs@.len(),
    ensures
        r == algorithm_from_name(cs@.subrange(from as int, to as int)),
{
    if chars_equal_str(cs, from, to, "xpress4k") {
        WofAlgorithm::Xpress4K
    } else if chars_equal_str(cs, from, to, "xpress8k") {
        WofAlgorithm::Xpress8K
    } else if chars_equal_str(cs, from, to, "xpress16k") {
        WofAlgorithm::Xpress16K
    } else if chars_equal_str(cs, from, to, "lznt1") {
        WofAlgorithm::Lznt1
    } else if chars_equal_str(cs, from, to, "lzx") {
        WofAlgorithm::Lzx
    } else {
        WofAlgorithm::Xpress8K
    }
}

/// Reads the item another instance hands over ("path|algorithm|action", UTF-16).
pub fn parse_ipc_payload(units: &[u16]) -> (r: Option<(String, WofAlgorithm, BatchAction)>)
    ensures
        match ipc_request(units@) {
            None => r is None,
            Some((p, a, c)) => r matches Some((rp, ra, rc)) && rp@ == p && ra == a && rc == c,
        },
{
    let text = from_utf16_lossy(units);
    let cs = collect_chars(text.as_str());
    let (a, b) = trim_nul_range(&cs);
    let ghost s = cs@.subrange(a as int, b as int);
    let bar1 = match find_bar(&cs, a, b) {
        Some(i) => i,
        None => {
            proof { assert(bar_field(s, 1) is None); }
            return None;
        },
    };
    let ghost s1 = cs@.subrange(bar1 + 1, b as int);
    proof {
        assert(s.skip(bar1 - a + 1) =~= s1);
        assert(s.take(bar1 - a) =~= cs@.subrange(a as int, bar1 as int));
        assert(first_bar(s) == bar1 - a);
        assert(bar_field(s, 1) == bar_field(s1, 0));
        assert(bar_field(s, 2) == bar_field(s1, 1));
    }
    let bar2 = match find_bar(&cs, bar1 + 1, b) {
        Some(i) => i,
        None => {
            proof { assert(bar_field(s1, 1) is None); }
            return None;
        },
    };
    let ghost s2 = cs@.subrange(bar2 + 1, b as int);
    proof {
        assert(s1.skip(bar2 - bar1) =~= s2);
        assert(s1.take(bar2 - bar1 - 1) =~= cs@.subrange(bar1 + 1, bar2 as int));
        assert(first_bar(s1) == bar2 - bar1 - 1);
        assert(bar_field(s1, 0) == Some(cs@.subrange(bar1 + 1, bar2 as int)));
        assert(bar_field(s1, 1) == bar_field(s2, 0));
    }
    let end3 = match find_bar(&cs, bar2 + 1, b) {
        Some(i) => i,
        None => b,
    };
    proof {
        if end3 < b {
            assert(s2.take(end3 - bar2 - 1) =~= cs@.subrange(bar2 + 1, end3 as int));
        }
        assert(bar_field(s2, 0) == Some(cs@.subrange(bar2 + 1, end3 as int)));
        assert(bar_field(s, 0) == Some(cs@.subrange(a as int, bar1 as int)));
    }
    let path = string_from_chars(&cs, a, bar1);
    let algo = algorithm_by_name(&cs, bar1 + 1, bar2);
    let action = if chars_equal_str(&cs, bar2 + 1, end3, "decompress") {
        BatchAction::Decompress
    } else {
        BatchAction::Compress
    };
    Some((path, algo, action))
}

// ---------------------------------------------------------------------------
// Text of the list cells
// ---------------------------------------------------------------------------

/// The content of a list cell: text, or a byte count that the shell formats.
pub enum CellText {
    /// Null-terminated UTF-16 text.
    Units(Vec<u16>),
    /// A size in bytes, shown in the shell's short format.
    Size(u64),
}

pub open spec fn state_text(s: Option<CompressionState>) -> Seq<char> {
    match s {
        Some(CompressionState::Specific(a)) => algorithm_name(a),
        Some(CompressionState::Mixed) => "Mixed"@,
        _ => "-"@,
    }
}

pub open spec fn status_label(s: BatchStatus) -> Seq<char> {
    match s {
        BatchStatus::Pending => "Pending"@,
        BatchStatus::Processing => "Processing"@,
        BatchStatus::Complete => "Complete"@,
        BatchStatus::Error(_) => "Error"@,
    }
}

/// The controls shown in the playback column.
pub open spec fn playback_text(complete: bool, processing: bool, pending: bool, gs: ProcessingState) -> Seq<char> {
    if !complete && gs == ProcessingState::Running && processing {
        "\u{1F441}    \u{23F8}   \u{23F9}"@
    } else if !complete && gs == ProcessingState::Paused && (processing || pending) {
        "\u{1F441}    \u{25B6}   \u{23F9}"@
    } else {
        "\u{1F441}    \u{25B6}"@
    }
}

/// What cell (`row`, `col`) of the list shows.
pub open spec fn cell_content(st: AppState, row: int, col: i32) -> Option<Seq<u16>> {
    let it = st.batch_items@[st.filtered_items@[row] as int];
    if col == 0 {
        Some(wz(it.path@))
    } else if col == 1 {
        Some(wz(state_text(it.final_state)))
    } else if col == 2 {
        Some(wz(algorithm_name(it.algorithm)))
    } else if col == 3 {
        Some(wz(if it.action == BatchAction::Compress { "Compress"@ } else { "Decompress"@ }))
    } else if col == 5 && it.estimated_size == 0 {
        Some(wz("Estimating..."@))
    } else if col == 6 && it.disk_size == 0 {
        Some(wz("-"@))
    } else if col == 8 {
        Some((decimal(it.progress.0 as nat) + utf16_encode(" / "@) + decimal(it.progress.1 as nat)).push(0u16))
    } else if col == 9 {
        Some(wz(match it.status_override {
            Some(o) => o@,
            None => status_label(it.status),
        }))
    } else if col == 10 {
        Some(wz(playback_text(it.status is Complete, it.status is Processing, it.status is Pending, st.global_state)))
    } else {
        None
    }
}

/// The Action column shows "Compress" exactly for an item to compress and
/// "Decompress" exactly for an item to decompress.
pub proof fn lemma_action_column(st: AppState, row: int)
    requires
        0 <= row < st.filtered_items@.len(),
        st.filtered_items@[row] < st.batch_items@.len(),
    ensures
        ({
            let it = st.batch_items@[st.filtered_items@[row] as int];
            &&& cell_content(st, row, 3) == Some(wz("Compress"@)) <==> it.action == BatchAction::Compress
            &&& cell_content(st, row, 3) == Some(wz("Decompress"@)) <==> it.action == BatchAction::Decompress
        }),
{
    reveal_strlit("Compress");
    reveal_strlit("Decompress");
    assert("Compress"@ != "Decompress"@) by {
        assert("Compress"@.len() != "Decompress"@.len());
    }
    if wz("Compress"@) == wz("Decompress"@) {
        assert(utf16_encode("Compress"@) =~= wz("Compress"@).drop_last());
        assert(utf16_encode("Decompress"@) =~= wz("Decompress"@).drop_last());
        crate::wide::lemma_decode_encode("Compress"@);
        crate::wide::lemma_decode_encode("Decompress"@);
    }
}

/// The Algorithm column tells algorithms apart: two rows show the same text
/// there exactly when their items have the same algorithm, and the text is
/// the algorithm's shown name.
pub proof fn lemma_algorithm_column(st: AppState, row: int, other: int)
    requires
        0 <= row < st.filtered_items@.len(),
        st.filtered_items@[row] < st.batch_items@.len(),
        0 <= other < st.filtered_items@.len(),
        st.filtered_items@[other] < st.batch_items@.len(),
    ensures
        ({
            let a = st.batch_items@[st.filtered_items@[row] as int];
            let b = st.batch_items@[st.filtered_items@[other] as int];
            &&& cell_content(st, row, 2) == cell_content(st, other, 2) <==> a.algorithm == b.algorithm
            &&& cell_content(st, row, 2) == Some(wz(algorithm_name(a.algorithm)))
        }),
{
    let a = st.batch_items@[st.filtered_items@[row] as int];
    let b = st.batch_items@[st.filtered_items@[other] as int];
    lemma_algorithm_name_roundtrip(a.algorithm, b.algorithm);
    if cell_content(st, row, 2) == cell_content(st, other, 2) {
        assert(utf16_encode(algorithm_name(a.algorithm)) =~= wz(algorithm_name(a.algorithm)).drop_last());
        assert(utf16_encode(algorithm_name(b.algorithm)) =~= wz(algorithm_name(b.algorithm)).drop_last());
        crate::wide::lemma_decode_encode(algorithm_name(a.algorithm));
        crate::wide::lemma_decode_encode(algorithm_name(b.algorithm));
    }
}

impl AppState {
    /// The content of list cell (`row`, `col`); `None` for rows or columns that do not exist.
    pub fn cell_text(&self, row: usize, col: i32) -> (r: Option<CellText>)
        ensures
            row >= self.filtered_items@.len() || self.filtered_items@[row as int] >= self.batch_items@.len()
                ==> r is None,
            row < self.filtered_items@.len() && self.filtered_items@[row as int] < self.batch_items@.len() ==> ({
                let it = self.batch_items@[self.filtered_items@[row as int] as int];
                if col == 4 {
                    r matches Some(CellText::Size(v)) && v == it.logical_size
                } else if col == 5 && it.estimated_size > 0 {
                    r matches Some(CellText::Size(v)) && v == it.estimated_size
                } else if col == 6 && it.disk_size > 0 {
                    r matches Some(CellText::Size(v)) && v == it.disk_size
                } else if col == 7 {
                    r matches Some(CellText::Units(u)) && (it.logical_size == 0 ==> u@ == wz("-"@))
                        && (it.logical_size != 0 ==> {
                            let pm = saved_per_mille(it.logical_size as nat, it.disk_size as nat);
                            u@ == (decimal(pm / 10) + utf16_encode("."@) + decimal(pm % 10)
                                + utf16_encode("%"@)).push(0u16)
                        })
                } else {
                    match cell_content(*self, row as int, col) {
                        Some(t) => r matches Some(CellText::Units(u)) && u@ == t,
                        None => r is None,
                    }
                }
            }),
    {
        if row >= self.filtered_items.len() {
            return None;
        }
        let idx = self.filtered_items[row];
        if idx >= self.batch_items.len() {
            return None;
        }
        let item = &self.batch_items[idx];
        if col == 0 {
            Some(CellText::Units(to_wstring(item.path.as_str())))
        } else if col == 1 {
            let t = match item.final_state {
                Some(CompressionState::Specific(a)) => a.display_name(),
                Some(CompressionState::Mixed) => "Mixed",
                _ => "-",
            };
            Some(CellText::Units(to_wstring(t)))
        } else if col == 2 {
            Some(CellText::Units(to_wstring(item.algorithm.display_name())))
        } else if col == 3 {
            let t = if item.action == BatchAction::Compress { "Compress" } else { "Decompress" };
            Some(CellText::Units(to_wstring(t)))
        } else if col == 4 {
            Some(CellText::Size(item.logical_size))
        } else if col == 5 {
            if item.estimated_size > 0 {
                Some(CellText::Size(item.estimated_size))
            } else {
                Some(CellText::Units(to_wstring("Estimating...")))
            }
        } else if col == 6 {
            if item.disk_size > 0 {
                Some(CellText::Size(item.disk_size))
            } else {
                Some(CellText::Units(to_wstring("-")))
            }
        } else if col == 7 {
            Some(CellText::Units(calculate_ratio_string(item.logical_size, item.disk_size)))
        } else if col == 8 {
            let mut t: Vec<u16> = Vec::new();
            push_decimal(&mut t, item.progress.0);
            push_str_units(&mut t, " / ");
            push_decimal(&mut t, item.progress.1);
            t.push(0);
            Some(CellText::Units(t))
        } else if col == 9 {
            match &item.status_override {
                Some(o) => Some(CellText::Units(to_wstring(o.as_str()))),
                None => {
                    let t = match &item.status {
                        BatchStatus::Pending => "Pending",
                        BatchStatus::Processing => "Processing",
                        BatchStatus::Complete => "Complete",
                        BatchStatus::Error(_) => "Error",
                    };
                    Some(CellText::Units(to_wstring(t)))
                },
            }
        } else if col == 10 {
            let complete = matches!(item.status, BatchStatus::Complete);
            let processing = matches!(item.status, BatchStatus::Processing);
            let pending = matches!(item.status, BatchStatus::Pending);
            let gs = self.global_state;
            let t = if !complete && gs == ProcessingState::Running && processing {
                "\u{1F441}    \u{23F8}   \u{23F9}"
            } else if !complete && gs == ProcessingState::Paused && (processing || pending) {
                "\u{1F441}    \u{25B6}   \u{23F9}"
            } else {
                "\u{1F441}    \u{25B6}"
            };
            Some(CellText::Units(to_wstring(t)))
        } else {
            None
        }
    }

    /// A new global algorithm (or "as listed" with `None`): each item takes the
    /// cached estimate for its effective algorithm, or 0 while one is computed.
    /// Returns (id, path, algorithm) of the items to estimate.
    pub fn apply_global_algorithm(&mut self, algo: Option<WofAlgorithm>) -> (r: Vec<(u32, String, WofAlgorithm)>)
        requires
            old(self).wf(),
        ensures
            final(self).wf(),
            final(self).batch_items@.len() == old(self).batch_items@.len(),
            forall|k: int| 0 <= k < old(self).batch_items@.len() ==> ({
                let o = old(self).batch_items@[k];
                let it = #[trigger] final(self).batch_items@[k];
                let eff = match algo { Some(a) => a, None => o.algorithm };
                &&& it.id == o.id && it.path == o.path && it.algorithm == o.algorithm
                &&& it.estimation_cache == o.estimation_cache
                &&& it.estimated_size == match cached_estimate(o, eff) { Some(v) => v, None => 0 }
            }),
            requests_view(r@) == estimate_requests(old(self).batch_items@, algo),
            final(self).next_item_id == old(self).next_item_id,
    {
        let mut out: Vec<(u32, String, WofAlgorithm)> = Vec::new();
        let n = self.batch_items.len();
        let mut i: usize = 0;
        while i < n
            invariant
                n == self.batch_items@.len(),
                n == old(self).batch_items@.len(),
                0 <= i <= n,
                self.next_item_id == old(self).next_item_id,
                forall|k: int| i <= k < n ==> #[trigger] self.batch_items@[k] == old(self).batch_items@[k],
                forall|k: int| 0 <= k < i ==> ({
                    let o = old(self).batch_items@[k];
                    let it = #[trigger] self.batch_items@[k];
                    let eff = match algo { Some(a) => a, None => o.algorithm };
                    &&& it.id == o.id && it.path == o.path && it.algorithm == o.algorithm
                    &&& it.estimation_cache == o.estimation_cache
                    &&& it.estimated_size == match cached_estimate(o, eff) { Some(v) => v, None => 0 }
                }),
                requests_view(out@) == estimate_requests(old(self).batch_items@.take(i as int), algo),
            decreases n - i,
        {
            proof {
                assert(old(self).batch_items@.take(i + 1).drop_last() =~= old(self).batch_items@.take(i as int));
                assert(old(self).batch_items@.take(i + 1).last() == old(self).batch_items@[i as int]);
            }
            let eff = match algo {
                Some(a) => a,
                None => self.batch_items[i].algorithm,
            };
            match self.batch_items[i].get_cached_estimate(eff) {
                Some(v) => {
                    self.batch_items[i].estimated_size = v;
                },
                None => {
                    let id = self.batch_items[i].id;
                    let p = self.batch_items[i].path.clone();
                    self.batch_items[i].estimated_size = 0;
                    let ghost before = out@;
                    out.push((id, p, eff));
                    proof {
                        assert(requests_view(out@) =~= requests_view(before).push((id, old(self).batch_items@[i as int].path@, eff)));
                    }
                },
            }
            i += 1;
        }
        proof {
            assert(old(self).batch_items@.take(n as int) =~= old(self).batch_items@);
            assert forall|a: int, b: int| 0 <= a < b < self.batch_items@.len() implies
                self.batch_items@[a].id != self.batch_items@[b].id by {
                assert(old(self).batch_items@[a].id != old(self).batch_items@[b].id);
            }
            assert forall|a: int| 0 <= a < self.batch_items@.len() implies self.batch_items@[a].id < self.next_item_id by {
                assert(old(self).batch_items@[a].id < old(self).next_item_id);
            }
        }
        out
    }
}

/// The algorithm an item is estimated for: the global one, or its own.
pub open spec fn effective_algorithm(it: BatchItem, algo: Option<WofAlgorithm>) -> WofAlgorithm {
    match algo {
        Some(a) => a,
        None => it.algorithm,
    }
}

/// The estimates to request after a change of the global algorithm, in list
/// order: (id, path, algorithm) of each item with no cached estimate for the
/// algorithm it is estimated for.
pub open spec fn estimate_requests(items: Seq<BatchItem>, algo: Option<WofAlgorithm>) -> Seq<(u32, Seq<char>, WofAlgorithm)>
    decreases items.len(),
{
    if items.len() == 0 {
        Seq::empty()
    } else {
        let prev = estimate_requests(items.drop_last(), algo);
        let it = items.last();
        let eff = effective_algorithm(it, algo);
        if cached_estimate(it, eff) is None {
            prev.push((it.id, it.path@, eff))
        } else {
            prev
        }
    }
}

/// Requests as the contracts see them.
pub open spec fn requests_view(r: Seq<(u32, String, WofAlgorithm)>) -> Seq<(u32, Seq<char>, WofAlgorithm)> {
    r.map_values(|t: (u32, String, WofAlgorithm)| (t.0, t.1@, t.2))
}

// ---------------------------------------------------------------------------
// Combo boxes
// ---------------------------------------------------------------------------

pub open spec fn global_algorithm_spec(idx: i32) -> Option<WofAlgorithm> {
    if idx == 0 {
        None
    } else if idx == 1 {
        Some(WofAlgorithm::Xpress4K)
    } else if idx == 2 {
        Some(WofAlgorithm::Xpress8K)
    } else if idx == 3 {
        Some(WofAlgorithm::Xpress16K)
    } else if idx == 4 {
        Some(WofAlgorithm::Lzx)
    } else if idx == 5 {
        Some(WofAlgorithm::Lznt1)
    } else {
        Some(WofAlgorithm::Xpress8K)
    }
}

/// The algorithm the action bar's combo box selects ("As Listed" is `None`).
pub fn global_algorithm_from_combo(idx: i32) -> (r: Option<WofAlgorithm>)
    ensures
        r == global_algorithm_spec(idx),
{
    match idx {
        0 => None,
        1 => Some(WofAlgorithm::Xpress4K),
        2 => Some(WofAlgorithm::Xpress8K),
        3 => Some(WofAlgorithm::Xpress16K),
        4 => Some(WofAlgorithm::Lzx),
        5 => Some(WofAlgorithm::Lznt1),
        _ => Some(WofAlgorithm::Xpress8K),
    }
}

/// The algorithm the search panel filters by ("All" is `None`).
pub fn filter_algorithm_from_combo(idx: i32) -> (r: Option<WofAlgorithm>)
    ensures
        1 <= idx <= 5 ==> r == global_algorithm_spec(idx),
        !(1 <= idx <= 5) ==> r is None,
{
    match idx {
        1 => Some(WofAlgorithm::Xpress4K),
        2 => Some(WofAlgorithm::Xpress8K),
        3 => Some(WofAlgorithm::Xpress16K),
        4 => Some(WofAlgorithm::Lzx),
        5 => Some(WofAlgorithm::Lznt1),
        _ => None,
    }
}

/// The algorithm a run uses when the combo box overrides the items' own
/// (index 0, "As Listed", keeps each item's algorithm).
pub fn run_algorithm_from_combo(idx: i32) -> (r: (bool, WofAlgorithm))
    ensures
        r.0 == (idx == 0),
        r.1 == (if idx == 1 {
            WofAlgorithm::Xpress4K
        } else if idx == 3 {
            WofAlgorithm::Xpress16K
        } else if idx == 4 {
            WofAlgorithm::Lzx
        } else {
            WofAlgorithm::Xpress8K
        }),
{
    let algo = match idx {
        1 => WofAlgorithm::Xpress4K,
        3 => WofAlgorithm::Xpress16K,
        4 => WofAlgorithm::Lzx,
        _ => WofAlgorithm::Xpress8K,
    };
    (idx == 0, algo)
}

/// The column the search panel filters on.
pub fn filter_column_from_combo(idx: i32) -> (r: FilterColumn)
    ensures
        r == (if idx == 1 { FilterColumn::Status } else { FilterColumn::Path }),
{
    if idx == 1 {
        FilterColumn::Status
    } else {
        FilterColumn::Path
    }
}

/// The algorithm a watcher task uses, from the combo box of the task dialog.
pub fn watcher_algorithm_from_combo(idx: i32) -> (r: WofAlgorithm)
    ensures
        r == (if idx == 0 {
            WofAlgorithm::Xpress4K
        } else if idx == 2 {
            WofAlgorithm::Xpress16K
        } else if idx == 3 {
            WofAlgorithm::Lzx
        } else {
            WofAlgorithm::Xpress8K
        }),
{
    match idx {
        0 => WofAlgorithm::Xpress4K,
        1 => WofAlgorithm::Xpress8K,
        2 => WofAlgorithm::Xpress16K,
        3 => WofAlgorithm::Lzx,
        _ => WofAlgorithm::Xpress8K,
    }
}

/// The combo index saved in the settings: the selection, or 0 when there is none.
pub fn saved_combo_index(idx: i32) -> (r: u8)
    ensures
        idx >= 0 ==> r == idx as u8,
        idx < 0 ==> r == 0,
{
    if idx >= 0 {
        idx as u8
    } else {
        0
    }
}

/// The theme a settings request asks for (0 system, 1 dark, 2 light; others keep the current one).
pub open spec fn theme_of_request(wparam: usize, current: AppTheme) -> AppTheme {
    if wparam == 0 {
        AppTheme::System
    } else if wparam == 1 {
        AppTheme::Dark
    } else if wparam == 2 {
        AppTheme::Light
    } else {
        current
    }
}

/// The theme a settings request asks for (see `theme_of_request`).
pub fn theme_from_request(wparam: usize, current: AppTheme) -> (r: AppTheme)
    ensures
        r == theme_of_request(wparam, current),
{
    match wparam {
        0 => AppTheme::System,
        1 => AppTheme::Dark,
        2 => AppTheme::Light,
        _ => current,
    }
}

/// Whether the theme is dark, given whether the system is in dark mode.
pub fn resolve_mode(theme: AppTheme, system_dark: bool) -> (r: bool)
    ensures
        r == match theme {
            AppTheme::Dark => true,
            AppTheme::Light => false,
            AppTheme::System => system_dark,
        },
{
    match theme {
        AppTheme::Dark => true,
        AppTheme::Light => false,
        AppTheme::System => system_dark,
    }
}

// ---------------------------------------------------------------------------
// "File is locked" prompt
// ---------------------------------------------------------------------------

/// What to do when a process holds a file open.
#[derive(Clone, Copy, Debug, PartialEq, Eq, Structural)]
pub enum ForceStopDecision {
    /// Stop the process without asking.
    Kill,
    /// Leave it alone without asking.
    Skip,
    /// Ask the user.
    Ask,
}

/// The prompt's message for the process `name`, null-terminated.
pub open spec fn lock_prompt_units(name: Seq<char>) -> Seq<u16> {
    wz("Process '"@ + name + "' is locking this file.\nForce Stop and try again?"@)
}

/// The prompt's message: which process holds the file, and the question.
pub fn lock_prompt_text(name: &str) -> (r: Vec<u16>)
    ensures
        r@ == lock_prompt_units(name@),
{
    let mut out: Vec<u16> = Vec::new();
    push_str_units(&mut out, "Process '");
    push_str_units(&mut out, name);
    push_str_units(&mut out, "' is locking this file.\nForce Stop and try again?");
    out.push(0);
    proof {
        crate::wide::lemma_encode_append("Process '"@, name@);
        crate::wide::lemma_encode_append("Process '"@ + name@, "' is locking this file.\nForce Stop and try again?"@);
    }
    out
}

/// Seconds the prompt waits before it cancels by itself.
pub const FORCE_STOP_SECONDS: u32 = 5;

/// "Cancel (n)", null-terminated: the prompt's Cancel button with the seconds left.
pub open spec fn cancel_label_units(seconds: u32) -> Seq<u16> {
    (utf16_encode("Cancel ("@) + decimal(seconds as nat) + utf16_encode(")"@)).push(0u16)
}

/// The Cancel button's text with `seconds` left.
pub fn cancel_label(seconds: u32) -> (r: Vec<u16>)
    ensures
        r@ == cancel_label_units(seconds),
{
    let mut out: Vec<u16> = Vec::new();
    push_str_units(&mut out, "Cancel (");
    push_decimal(&mut out, seconds as u64);
    push_str_units(&mut out, ")");
    out.push(0);
    out
}

/// One second of the prompt's countdown: the seconds left afterwards, the new
/// Cancel text when it changes, and whether the prompt now cancels by itself.
/// Once the count is at 0 a tick changes nothing.
pub fn force_stop_tick(seconds_left: u32) -> (r: (u32, Option<Vec<u16>>, bool))
    ensures
        seconds_left > 0 ==> r.0 == seconds_left - 1
            && (r.1 matches Some(t) && t@ == cancel_label_units(r.0))
            && (r.2 <==> r.0 == 0),
        seconds_left == 0 ==> r.0 == 0 && r.1 is None && !r.2,
{
    if seconds_left > 0 {
        let left = seconds_left - 1;
        (left, Some(cancel_label(left)), left == 0)
    } else {
        (0, None, false)
    }
}

pub open spec fn seq_has(v: Seq<String>, s: Seq<char>) -> bool {
    exists|i: int| 0 <= i < v.len() && #[trigger] v[i]@ == s
}

/// No name occurs twice: the list stands for a set of process names.
pub open spec fn names_distinct(v: Seq<String>) -> bool {
    forall|i: int, j: int| 0 <= i < j < v.len() ==> #[trigger] v[i]@ != #[trigger] v[j]@
}

impl AppState {
    fn ignores(&self, name: &String) -> (r: bool)
        ensures
            r == seq_has(self.ignored_lock_processes@, name@),
    {
        let n = self.ignored_lock_processes.len();
        let mut i: usize = 0;
        while i < n
            invariant
                n == self.ignored_lock_processes@.len(),
                0 <= i <= n,
                forall|k: int| 0 <= k < i ==> #[trigger] self.ignored_lock_processes@[k]@ != name@,
            decreases n - i,
        {
            if self.ignored_lock_processes[i] == *name {
                return true;
            }
            i += 1;
        }
        false
    }

    /// Whether to stop a process that holds a file: always when force-stop is on;
    /// never for a process the user chose to keep or one already being asked
    /// about; otherwise ask (and remember that a prompt is open for it).
    pub fn force_stop_decision(&mut self, name: &String) -> (r: ForceStopDecision)
        ensures
            old(self).enable_force_stop ==> r == ForceStopDecision::Kill && *final(self) == *old(self),
            !old(self).enable_force_stop && (seq_has(old(self).ignored_lock_processes@, name@)
                || (old(self).active_lock_dialog matches Some(a) && a@ == name@))
                ==> r == ForceStopDecision::Skip && *final(self) == *old(self),
            !old(self).enable_force_stop && !seq_has(old(self).ignored_lock_processes@, name@)
                && !(old(self).active_lock_dialog matches Some(a) && a@ == name@)
                ==> r == ForceStopDecision::Ask
                && (final(self).active_lock_dialog matches Some(a) && a@ == name@)
                && final(self).ignored_lock_processes == old(self).ignored_lock_processes
                && final(self).batch_items == old(self).batch_items,
    {
        if self.enable_force_stop {
            return ForceStopDecision::Kill;
        }
        if self.ignores(name) {
            return ForceStopDecision::Skip;
        }
        let same = match &self.active_lock_dialog {
            Some(a) => *a == *name,
            None => false,
        };
        if same {
            return ForceStopDecision::Skip;
        }
        self.active_lock_dialog = Some(name.clone());
        ForceStopDecision::Ask
    }

    /// Records the user's answer to the prompt: the prompt is closed, and a
    /// process the user keeps is not asked about again.
    pub fn force_stop_answered(&mut self, name: String, kill: bool)
        ensures
            final(self).active_lock_dialog is None,
            kill ==> final(self).ignored_lock_processes == old(self).ignored_lock_processes,
            !kill ==> seq_has(final(self).ignored_lock_processes@, name@),
            !kill && seq_has(old(self).ignored_lock_processes@, name@) ==>
                final(self).ignored_lock_processes == old(self).ignored_lock_processes,
            !kill && !seq_has(old(self).ignored_lock_processes@, name@) ==>
                final(self).ignored_lock_processes@ == old(self).ignored_lock_processes@.push(name),
            names_distinct(old(self).ignored_lock_processes@) ==> names_distinct(final(self).ignored_lock_processes@),
            final(self).batch_items == old(self).batch_items,
    {
        self.active_lock_dialog = None;
        if !kill && !self.ignores(&name) {
            self.ignored_lock_processes.push(name);
            proof {
                let v = self.ignored_lock_processes@;
                let n = v.len() - 1;
                assert(v[n]@ == name@);
                assert(forall|k: int| 0 <= k < n ==> v[k] == old(self).ignored_lock_processes@[k]);
                assert(forall|k: int| 0 <= k < n ==> !(#[trigger] old(self).ignored_lock_processes@[k]@ == name@)) by {
                    assert forall|k: int| 0 <= k < n implies !(#[trigger] old(self).ignored_lock_processes@[k]@ == name@) by {
                        if old(self).ignored_lock_processes@[k]@ == name@ {
                            assert(seq_has(old(self).ignored_lock_processes@, name@));
                        }
                    }
                }
            }
        }
    }
}

} // verus!
