//! The console window's log: entries wait in a pending list until the next
//! refresh, the history keeps the latest ones, and the whole history can be
//! copied as text.
use vstd::prelude::*;
use crate::logger::{LogEntry, format_log_entry, stamp_units, level_tag};
use crate::wide::utf16_encode;

verus! {

/// The number of entries the console keeps.
pub const MAX_HISTORY: usize = 1000;

/// The history after one entry arrives: the oldest entry goes when it is full.
pub open spec fn history_push(h: Seq<LogEntry>, e: LogEntry) -> Seq<LogEntry> {
    if h.len() >= MAX_HISTORY {
        h.drop_first().push(e)
    } else {
        h.push(e)
    }
}

/// The history after the pending entries arrive, one after the other.
pub open spec fn history_after(h: Seq<LogEntry>, p: Seq<LogEntry>) -> Seq<LogEntry>
    decreases p.len(),
{
    if p.len() == 0 {
        h
    } else {
        history_after(history_push(h, p[0]), p.drop_first())
    }
}

/// The last `n` entries of `s` (all of them when there are fewer).
pub open spec fn last_n(s: Seq<LogEntry>, n: int) -> Seq<LogEntry> {
    if s.len() > n {
        s.skip(s.len() - n)
    } else {
        s
    }
}

/// A history that was never over its bound keeps exactly the latest
/// `MAX_HISTORY` of all entries, in order.
pub proof fn lemma_history_keeps_latest(h: Seq<LogEntry>, p: Seq<LogEntry>)
    requires
        h.len() <= MAX_HISTORY,
    ensures
        history_after(h, p) == last_n(h + p, MAX_HISTORY as int),
        history_after(h, p).len() <= MAX_HISTORY,
    decreases p.len(),
{
    if p.len() > 0 {
        let h1 = history_push(h, p[0]);
        lemma_history_keeps_latest(h1, p.drop_first());
        let all = h + p;
        let rest = h1 + p.drop_first();
        if h.len() >= MAX_HISTORY {
            assert(rest =~= all.skip(1));
            assert(last_n(rest, MAX_HISTORY as int) =~= last_n(all, MAX_HISTORY as int));
        } else {
            assert(rest =~= all);
        }
    } else {
        assert(h + p =~= h);
    }
}

/// One line of the copied text: the formatted entry without its NUL, then CR LF.
pub open spec fn copied_line(e: LogEntry) -> Seq<u16> {
    stamp_units(e.timestamp) + utf16_encode(level_tag(e.level)) + utf16_encode(e.message@) + seq![13u16, 10u16]
}

/// The copied lines of the entries, one after the other.
pub open spec fn copied_lines(h: Seq<LogEntry>) -> Seq<u16>
    decreases h.len(),
{
    if h.len() == 0 {
        Seq::empty()
    } else {
        copied_lines(h.drop_last()) + copied_line(h.last())
    }
}

/// The console's entries.
pub struct ConsoleLog {
    /// Entries shown, oldest first.
    pub history: Vec<LogEntry>,
    /// Entries not shown yet.
    pub pending: Vec<LogEntry>,
}

impl ConsoleLog {
    /// At most `MAX_HISTORY` entries are shown.
    pub open spec fn wf(&self) -> bool {
        self.history@.len() <= MAX_HISTORY
    }

    /// An empty console.
    pub fn new() -> (r: Self)
        ensures
            r.wf(),
            r.history@.len() == 0,
            r.pending@.len() == 0,
    {
        ConsoleLog { history: Vec::new(), pending: Vec::new() }
    }

    /// An entry arrives; it is shown at the next refresh.
    pub fn append(&mut self, entry: LogEntry)
        ensures
            final(self).pending@ == old(self).pending@.push(entry),
            final(self).history@ == old(self).history@,
    {
        self.pending.push(entry);
    }

    /// Shows the pending entries (see `history_after`).
    pub fn flush_pending(&mut self)
        requires
            old(self).wf(),
        ensures
            final(self).history@ == history_after(old(self).history@, old(self).pending@),
            final(self).pending@.len() == 0,
            final(self).wf(),
    {
        let mut p: Vec<LogEntry> = Vec::new();
        std::mem::swap(&mut p, &mut self.pending);
        let ghost p0 = p@;
        let ghost h0 = self.history@;
        proof {
            lemma_history_keeps_latest(h0, p0);
        }
        while p.len() > 0
            invariant
                self.pending@.len() == 0,
                self.history@.len() <= MAX_HISTORY,
                history_after(h0, p0) == history_after(self.history@, p@),
            decreases p@.len(),
        {
            let e = p.remove(0);
            if self.history.len() >= MAX_HISTORY {
                self.history.remove(0);
            }
            self.history.push(e);
        }
    }

    /// Forgets every entry.
    pub fn clear(&mut self)
        ensures
            final(self).history@.len() == 0,
            final(self).pending@.len() == 0,
            final(self).wf(),
    {
        self.history.clear();
        self.pending.clear();
    }

    /// The text the copy button puts on the clipboard: every shown entry on a
    /// line of its own, NUL-terminated; `None` when nothing is shown.
    pub fn copy_text(&self) -> (r: Option<Vec<u16>>)
        ensures
            self.history@.len() == 0 ==> r is None,
            self.history@.len() > 0 ==> (r matches Some(t) && t@ == copied_lines(self.history@).push(0u16)),
    {
        if self.history.len() == 0 {
            return None;
        }
        let mut out: Vec<u16> = Vec::new();
        let mut i: usize = 0;
        assert(self.history@.take(0) =~= Seq::<LogEntry>::empty());
        while i < self.history.len()
            invariant
                0 <= i <= self.history@.len(),
                out@ == copied_lines(self.history@.take(i as int)),
            decreases self.history@.len() - i,
        {
            let mut line = format_log_entry(&self.history[i]);
            line.pop();
            let mut j: usize = 0;
            let ghost before = out@;
            while j < line.len()
                invariant
                    0 <= j <= line@.len(),
                    out@ == before + line@.take(j as int),
                decreases line@.len() - j,
            {
                out.push(line[j]);
                assert(line@.take(j + 1) =~= line@.take(j as int).push(line@[j as int]));
                j += 1;
            }
            out.push(13);
            out.push(10);
            proof {
                assert(line@.take(line@.len() as int) =~= line@);
                assert(self.history@.take(i + 1).drop_last() =~= self.history@.take(i as int));
                assert(self.history@.take(i + 1).last() == self.history@[i as int]);
                assert(out@ =~= copied_lines(self.history@.take(i + 1)));
            }
            i += 1;
        }
        assert(self.history@.take(self.history@.len() as int) =~= self.history@);
        out.push(0);
        Some(out)
    }
}

/// What a list row shows of a formatted line when the list gives a buffer of
/// `max_len` units: the first `min(len, max_len)` units, the last of them
/// replaced by NUL (nothing when the buffer is empty).
pub fn display_text(line: &[u16], max_len: usize) -> (r: Vec<u16>)
    ensures
        ({
            let n = if line@.len() < max_len { line@.len() as int } else { max_len as int };
            &&& n == 0 ==> r@.len() == 0
            &&& n > 0 ==> r@ == line@.take(n - 1).push(0u16)
        }),
{
    let n = if line.len() < max_len { line.len() } else { max_len };
    let mut out: Vec<u16> = Vec::new();
    if n == 0 {
        return out;
    }
    let mut i: usize = 0;
    while i + 1 < n
        invariant
            n <= line@.len(),
            0 <= i < n,
            out@ == line@.take(i as int),
        decreases n - i,
    {
        out.push(line[i]);
        assert(line@.take(i + 1) =~= line@.take(i as int).push(line@[i as int]));
        i += 1;
    }
    out.push(0);
    out
}

} // verus!
