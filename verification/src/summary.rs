//! Totals shown in labels: the accuracy of the size estimates and the summary
//! line of the start-up dialog.
use vstd::prelude::*;
use crate::state::{BatchItem, BatchAction};
use crate::wof::WofAlgorithm;
use crate::wide::{push_chars_units, utf16_encode, strip_nul};

verus! {

/// Whether an item counts for the estimate accuracy: it has an estimate, a
/// size on disk, and that size is below its logical size.
pub open spec fn counts_for_accuracy(it: BatchItem) -> bool {
    it.estimated_size > 0 && it.disk_size > 0 && it.disk_size < it.logical_size
}

/// The sums of the estimates and of the sizes on disk of the items that count.
pub open spec fn accuracy_sums_spec(items: Seq<BatchItem>) -> (int, int)
    decreases items.len(),
{
    if items.len() == 0 {
        (0, 0)
    } else {
        let (e, d) = accuracy_sums_spec(items.drop_last());
        let it = items.last();
        if counts_for_accuracy(it) {
            (e + it.estimated_size, d + it.disk_size)
        } else {
            (e, d)
        }
    }
}

proof fn lemma_sums_grow(items: Seq<BatchItem>, i: int)
    requires
        0 <= i <= items.len(),
    ensures
        0 <= accuracy_sums_spec(items.take(i)).0 <= accuracy_sums_spec(items).0,
        0 <= accuracy_sums_spec(items.take(i)).1 <= accuracy_sums_spec(items).1,
    decreases items.len() - i,
{
    if i < items.len() {
        lemma_sums_grow(items, i + 1);
        assert(items.take(i + 1).drop_last() =~= items.take(i));
        assert(items.take(i + 1).last() == items[i]);
        lemma_sums_nonneg(items.take(i));
    } else {
        assert(items.take(i) =~= items);
        lemma_sums_nonneg(items);
    }
}

proof fn lemma_sums_nonneg(items: Seq<BatchItem>)
    ensures
        accuracy_sums_spec(items).0 >= 0,
        accuracy_sums_spec(items).1 >= 0,
    decreases items.len(),
{
    if items.len() > 0 {
        lemma_sums_nonneg(items.drop_last());
    }
}

/// The sums behind the accuracy label (see `accuracy_sums_spec`); the label
/// shows a percentage only when both are positive.
pub fn accuracy_sums(items: &[BatchItem]) -> (r: (u64, u64))
    requires
        accuracy_sums_spec(items@).0 <= u64::MAX,
        accuracy_sums_spec(items@).1 <= u64::MAX,
    ensures
        r.0 as int == accuracy_sums_spec(items@).0,
        r.1 as int == accuracy_sums_spec(items@).1,
{
    let mut est: u64 = 0;
    let mut disk: u64 = 0;
    let mut i: usize = 0;
    assert(items@.take(0) =~= Seq::<BatchItem>::empty());
    while i < items.len()
        invariant
            0 <= i <= items@.len(),
            accuracy_sums_spec(items@).0 <= u64::MAX,
            accuracy_sums_spec(items@).1 <= u64::MAX,
            est as int == accuracy_sums_spec(items@.take(i as int)).0,
            disk as int == accuracy_sums_spec(items@.take(i as int)).1,
        decreases items@.len() - i,
    {
        proof {
            lemma_sums_grow(items@, i + 1);
            assert(items@.take(i + 1).drop_last() =~= items@.take(i as int));
            assert(items@.take(i + 1).last() == items@[i as int]);
        }
        let it = &items[i];
        if it.estimated_size > 0 && it.disk_size > 0 && it.disk_size < it.logical_size {
            est = est + it.estimated_size;
            disk = disk + it.disk_size;
        }
        i += 1;
    }
    assert(items@.take(items@.len() as int) =~= items@);
    (est, disk)
}

/// The sum of the (logical, on disk) sizes.
pub open spec fn size_totals(m: Seq<(u64, u64)>) -> (int, int)
    decreases m.len(),
{
    if m.len() == 0 {
        (0, 0)
    } else {
        let (l, d) = size_totals(m.drop_last());
        (l + m.last().0, d + m.last().1)
    }
}

proof fn lemma_totals_grow(m: Seq<(u64, u64)>, i: int)
    requires
        0 <= i <= m.len(),
    ensures
        0 <= size_totals(m.take(i)).0 <= size_totals(m).0,
        0 <= size_totals(m.take(i)).1 <= size_totals(m).1,
    decreases m.len() - i,
{
    if i < m.len() {
        lemma_totals_grow(m, i + 1);
        assert(m.take(i + 1).drop_last() =~= m.take(i));
        assert(m.take(i + 1).last() == m[i]);
        lemma_totals_nonneg(m.take(i));
    } else {
        assert(m.take(i) =~= m);
        lemma_totals_nonneg(m);
    }
}

proof fn lemma_totals_nonneg(m: Seq<(u64, u64)>)
    ensures
        size_totals(m).0 >= 0,
        size_totals(m).1 >= 0,
    decreases m.len(),
{
    if m.len() > 0 {
        lemma_totals_nonneg(m.drop_last());
    }
}

/// The total logical size and size on disk of the start-up dialog's items.
pub fn size_totals_of(metrics: &[(u64, u64)]) -> (r: (u64, u64))
    requires
        size_totals(metrics@).0 <= u64::MAX,
        size_totals(metrics@).1 <= u64::MAX,
    ensures
        r.0 as int == size_totals(metrics@).0,
        r.1 as int == size_totals(metrics@).1,
{
    let mut l: u64 = 0;
    let mut d: u64 = 0;
    let mut i: usize = 0;
    assert(metrics@.take(0) =~= Seq::<(u64, u64)>::empty());
    while i < metrics.len()
        invariant
            0 <= i <= metrics@.len(),
            size_totals(metrics@).0 <= u64::MAX,
            size_totals(metrics@).1 <= u64::MAX,
            l as int == size_totals(metrics@.take(i as int)).0,
            d as int == size_totals(metrics@.take(i as int)).1,
        decreases metrics@.len() - i,
    {
        proof {
            lemma_totals_grow(metrics@, i + 1);
            assert(metrics@.take(i + 1).drop_last() =~= metrics@.take(i as int));
        }
        let (a, b) = metrics[i];
        l = l + a;
        d = d + b;
        i += 1;
    }
    assert(metrics@.take(metrics@.len() as int) =~= metrics@);
    (l, d)
}

/// The tag that starts the start-up dialog's summary, from its first item
/// (XPRESS8K compression when there is none).
pub open spec fn summary_tag(first: Option<(WofAlgorithm, BatchAction)>) -> Seq<char> {
    let (algo, action) = match first {
        Some(p) => p,
        None => (WofAlgorithm::Xpress8K, BatchAction::Compress),
    };
    match action {
        BatchAction::Decompress => "[Decompress]  Logical: "@,
        BatchAction::Compress => match algo {
            WofAlgorithm::Xpress4K => "[XPRESS4K]  Logical: "@,
            WofAlgorithm::Xpress8K => "[XPRESS8K]  Logical: "@,
            WofAlgorithm::Xpress16K => "[XPRESS16K]  Logical: "@,
            WofAlgorithm::Lzx => "[LZX]  Logical: "@,
            WofAlgorithm::Lznt1 => "[LZNT1]  Logical: "@,
        },
    }
}

/// The start-up dialog's summary line: tag, logical size, size on disk and
/// saving, each size text given with or without its NUL; NUL-terminated.
pub open spec fn summary_units(first: Option<(WofAlgorithm, BatchAction)>, logical: Seq<u16>, disk: Seq<u16>, saved: Seq<u16>) -> Seq<u16> {
    (utf16_encode(summary_tag(first)) + strip_nul(logical) + utf16_encode("  |  On Disk: "@) + strip_nul(disk)
        + utf16_encode("  |  Saved: "@) + strip_nul(saved)).push(0u16)
}

fn push_stripped(out: &mut Vec<u16>, part: &[u16])
    ensures
        final(out)@ == old(out)@ + strip_nul(part@),
{
    let n = if part.len() > 0 && part[part.len() - 1] == 0 { part.len() - 1 } else { part.len() };
    let mut i: usize = 0;
    let ghost start = out@;
    while i < n
        invariant
            n <= part@.len(),
            strip_nul(part@) == part@.take(n as int),
            0 <= i <= n,
            out@ == start + part@.take(i as int),
        decreases n - i,
    {
        out.push(part[i]);
        assert(part@.take(i + 1) =~= part@.take(i as int).push(part@[i as int]));
        i += 1;
    }
}

/// The start-up dialog's summary line (see `summary_units`).
pub fn summary_label(first: Option<(WofAlgorithm, BatchAction)>, logical: &[u16], disk: &[u16], saved: &[u16]) -> (r: Vec<u16>)
    ensures
        r@ == summary_units(first, logical@, disk@, saved@),
{
    let (algo, action) = match first {
        Some(p) => p,
        None => (WofAlgorithm::Xpress8K, BatchAction::Compress),
    };
    let tag: &str = match action {
        BatchAction::Decompress => "[Decompress]  Logical: ",
        BatchAction::Compress => match algo {
            WofAlgorithm::Xpress4K => "[XPRESS4K]  Logical: ",
            WofAlgorithm::Xpress8K => "[XPRESS8K]  Logical: ",
            WofAlgorithm::Xpress16K => "[XPRESS16K]  Logical: ",
            WofAlgorithm::Lzx => "[LZX]  Logical: ",
            WofAlgorithm::Lznt1 => "[LZNT1]  Logical: ",
        },
    };
    let mut out: Vec<u16> = Vec::new();
    crate::wide::push_str_units(&mut out, tag);
    push_stripped(&mut out, logical);
    crate::wide::push_str_units(&mut out, "  |  On Disk: ");
    push_stripped(&mut out, disk);
    crate::wide::push_str_units(&mut out, "  |  Saved: ");
    push_stripped(&mut out, saved);
    out.push(0);
    out
}

} // verus!
