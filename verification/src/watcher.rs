//! Scheduled folder watches: the task record, its fixed-size path, the byte
//! layout of the task file, and the texts and checks of the watch dialogs.
use vstd::prelude::*;
use crate::wof::{WofAlgorithm, algorithm_code};
use crate::wide::{utf16_encode, utf16_decode_lossy, push_str_units, from_utf16_lossy,
    lemma_decode_encode, lemma_encode_no_nul, decimal, decimal2, push_decimal2, push_decimal, push_chars_units};
use crate::path_buffer::{before_nul, lemma_before_nul};
use crate::text::{contains_seq, occurs_at};

verus! {

/// The number of UTF-16 units of a task's path field, terminator included.
pub const MAX_PATH_LEN: usize = 260;

/// A scheduled compression of a folder.
#[derive(Clone, Copy, Debug)]
pub struct WatcherTask {
    pub id: u32,
    /// The folder, as NUL-terminated UTF-16.
    pub path: [u16; 260],
    pub algorithm: WofAlgorithm,
    /// Bit 0 Monday ... bit 6 Sunday; bit 7 every day.
    pub days_mask: u8,
    pub time_hour: u8,
    pub time_minute: u8,
    /// Unix time of the last run, 0 when it never ran.
    pub last_run_timestamp: u64,
    pub _padding: [u8; 4],
}

/// The path field for `s`: its UTF-16 units, at most 259 of them, then NULs.
pub open spec fn path_field(s: Seq<char>) -> Seq<u16> {
    let enc = utf16_encode(s);
    Seq::new(260, |i: int| if i < 259 && i < enc.len() { enc[i] } else { 0u16 })
}

impl Default for WatcherTask {
    fn default() -> (r: Self)
        ensures
            r.id == 0,
            forall|i: int| 0 <= i < 260 ==> r.path@[i] == 0,
            r.algorithm == WofAlgorithm::Xpress8K,
            r.days_mask == 0,
            r.time_hour == 0,
            r.time_minute == 0,
            r.last_run_timestamp == 0,
            r._padding@ == seq![0u8, 0u8, 0u8, 0u8],
    {
        let r = WatcherTask {
            id: 0,
            path: [0u16; 260],
            algorithm: WofAlgorithm::Xpress8K,
            days_mask: 0,
            time_hour: 0,
            time_minute: 0,
            last_run_timestamp: 0,
            _padding: [0u8; 4],
        };
        assert(r._padding@ =~= seq![0u8, 0u8, 0u8, 0u8]);
        r
    }
}

/// The path field for a string (see `path_field`).
fn encode_path(path_str: &str) -> (r: [u16; 260])
    ensures
        r@ == path_field(path_str@),
{
    let mut enc: Vec<u16> = Vec::new();
    push_str_units(&mut enc, path_str);
    assert(enc@ =~= utf16_encode(path_str@));
    let mut path = [0u16; 260];
    let mut i: usize = 0;
    while i < 259 && i < enc.len()
        invariant
            enc@ == utf16_encode(path_str@),
            0 <= i <= 259,
            i <= enc@.len(),
            path@.len() == 260,
            forall|j: int| 0 <= j < 260 ==> path@[j] == if j < i { enc@[j] } else { 0u16 },
        decreases 259 - i,
    {
        path[i] = enc[i];
        i += 1;
    }
    assert(path@ =~= path_field(path_str@));
    path
}

impl WatcherTask {
    /// A task that never ran; the path keeps at most 259 UTF-16 units.
    pub fn new(id: u32, path_str: &str, algorithm: WofAlgorithm, days_mask: u8, hour: u8, minute: u8) -> (r: Self)
        ensures
            r.id == id,
            r.path@ == path_field(path_str@),
            r.algorithm == algorithm,
            r.days_mask == days_mask,
            r.time_hour == hour,
            r.time_minute == minute,
            r.last_run_timestamp == 0,
            r._padding@ == seq![0u8, 0u8, 0u8, 0u8],
    {
        let path = encode_path(path_str);
        let r = WatcherTask {
            id,
            path,
            algorithm,
            days_mask,
            time_hour: hour,
            time_minute: minute,
            last_run_timestamp: 0,
            _padding: [0u8; 4],
        };
        assert(r._padding@ =~= seq![0u8, 0u8, 0u8, 0u8]);
        r
    }

    /// The path, read up to its first NUL; unpaired surrogates become U+FFFD.
    pub fn get_path(&self) -> (r: String)
        ensures
            r@ == utf16_decode_lossy(before_nul(self.path@)),
    {
        let mut end: usize = 0;
        while end < 260 && self.path[end] != 0
            invariant
                0 <= end <= 260,
                self.path@.len() == 260,
                forall|k: int| 0 <= k < end ==> self.path@[k] != 0,
            decreases 260 - end,
        {
            end += 1;
        }
        proof {
            lemma_before_nul(self.path@, end as int);
        }
        let part = vstd::slice::slice_subrange(self.path.as_slice(), 0, end);
        assert(part@ =~= self.path@.take(end as int));
        from_utf16_lossy(part)
    }

    /// Replaces the path (at most 259 UTF-16 units are kept); nothing else changes.
    pub fn set_path(&mut self, path_str: &str)
        ensures
            final(self).path@ == path_field(path_str@),
            final(self).id == old(self).id,
            final(self).algorithm == old(self).algorithm,
            final(self).days_mask == old(self).days_mask,
            final(self).time_hour == old(self).time_hour,
            final(self).time_minute == old(self).time_minute,
            final(self).last_run_timestamp == old(self).last_run_timestamp,
            final(self)._padding == old(self)._padding,
    {
        self.path = encode_path(path_str);
    }
}

/// A path that fits and holds no NUL is read back unchanged from the task.
pub proof fn lemma_path_reads_back(s: Seq<char>)
    requires
        utf16_encode(s).len() <= 259,
        forall|i: int| 0 <= i < s.len() ==> s[i] != '\0',
    ensures
        utf16_decode_lossy(before_nul(path_field(s))) == s,
{
    let enc = utf16_encode(s);
    lemma_encode_no_nul(s);
    let p = path_field(s);
    assert forall|k: int| 0 <= k < enc.len() implies p[k] != 0 by {
        assert(p[k] == enc[k]);
    }
    lemma_before_nul(p, enc.len() as int);
    assert(p.take(enc.len() as int) =~= enc);
    lemma_decode_encode(s);
}

/// The size of one task in the task file.
pub const RECORD_SIZE: usize = 552;

/// `x` as two little-endian bytes.
pub open spec fn le_u16(x: u16) -> Seq<u8> {
    seq![(x & 0xff) as u8, ((x >> 8u16) & 0xff) as u8]
}

/// `x` as four little-endian bytes.
pub open spec fn le_u32(x: u32) -> Seq<u8> {
    seq![(x & 0xff) as u8, ((x >> 8u32) & 0xff) as u8, ((x >> 16u32) & 0xff) as u8, ((x >> 24u32) & 0xff) as u8]
}

/// `x` as eight little-endian bytes.
pub open spec fn le_u64(x: u64) -> Seq<u8> {
    seq![
        (x & 0xff) as u8, ((x >> 8u64) & 0xff) as u8, ((x >> 16u64) & 0xff) as u8, ((x >> 24u64) & 0xff) as u8,
        ((x >> 32u64) & 0xff) as u8, ((x >> 40u64) & 0xff) as u8, ((x >> 48u64) & 0xff) as u8, ((x >> 56u64) & 0xff) as u8,
    ]
}

/// The little-endian `u16` at `at`.
pub open spec fn read_u16(b: Seq<u8>, at: int) -> u16 {
    (b[at] as u16) | ((b[at + 1] as u16) << 8u16)
}

/// The little-endian `u32` at `at`.
pub open spec fn read_u32(b: Seq<u8>, at: int) -> u32 {
    (b[at] as u32) | ((b[at + 1] as u32) << 8u32) | ((b[at + 2] as u32) << 16u32) | ((b[at + 3] as u32) << 24u32)
}

/// The little-endian `u64` at `at`.
pub open spec fn read_u64(b: Seq<u8>, at: int) -> u64 {
    (b[at] as u64) | ((b[at + 1] as u64) << 8u64) | ((b[at + 2] as u64) << 16u64) | ((b[at + 3] as u64) << 24u64)
        | ((b[at + 4] as u64) << 32u64) | ((b[at + 5] as u64) << 40u64) | ((b[at + 6] as u64) << 48u64)
        | ((b[at + 7] as u64) << 56u64)
}

/// The path units as little-endian bytes.
pub open spec fn path_bytes(p: Seq<u16>) -> Seq<u8> {
    Seq::new(2 * p.len(), |k: int| if k % 2 == 0 { (p[k / 2] & 0xff) as u8 } else { ((p[k / 2] >> 8u16) & 0xff) as u8 })
}

/// A task as stored in the task file: the fields in declaration order, each
/// little-endian and aligned to its size, zero bytes where alignment leaves a gap.
pub open spec fn task_record(t: WatcherTask) -> Seq<u8> {
    le_u32(t.id) + path_bytes(t.path@) + le_u32(algorithm_code(t.algorithm))
        + seq![t.days_mask, t.time_hour, t.time_minute, 0u8, 0u8, 0u8, 0u8, 0u8] + le_u64(t.last_run_timestamp)
        + t._padding@ + seq![0u8, 0u8, 0u8, 0u8]
}

/// The task file for a list of tasks: their records one after the other.
pub open spec fn task_file(ts: Seq<WatcherTask>) -> Seq<u8>
    decreases ts.len(),
{
    if ts.len() == 0 {
        Seq::empty()
    } else {
        task_record(ts[0]) + task_file(ts.drop_first())
    }
}

/// Whether the record at the start of `b` holds a known algorithm.
pub open spec fn valid_record(b: Seq<u8>) -> bool {
    b.len() >= 552 && read_u32(b, 524) <= 4
}

/// Whether `t` is the task stored at the start of `b`.
pub open spec fn record_holds(b: Seq<u8>, t: WatcherTask) -> bool {
    &&& t.id == read_u32(b, 0)
    &&& forall|i: int| 0 <= i < 260 ==> #[trigger] t.path@[i] == read_u16(b, 4 + 2 * i)
    &&& algorithm_code(t.algorithm) == read_u32(b, 524)
    &&& t.days_mask == b[528]
    &&& t.time_hour == b[529]
    &&& t.time_minute == b[530]
    &&& t.last_run_timestamp == read_u64(b, 536)
    &&& t._padding@ == b.subrange(544, 548)
}

/// How many whole records with a known algorithm `b` starts with.
pub open spec fn record_count(b: Seq<u8>) -> nat
    decreases b.len(),
{
    if valid_record(b) {
        1 + record_count(b.skip(552))
    } else {
        0
    }
}

proof fn lemma_u16_bytes(x: u16)
    by (bit_vector)
    ensures
        ((((x & 0xff) as u8) as u16) | (((((x >> 8u16) & 0xff) as u8) as u16) << 8u16)) == x,
{
}

proof fn lemma_u32_bytes(x: u32)
    by (bit_vector)
    ensures
        ((((x & 0xff) as u8) as u32) | (((((x >> 8u32) & 0xff) as u8) as u32) << 8u32) | (((((x >> 16u32) & 0xff) as u8) as u32) << 16u32) | (((((x >> 24u32) & 0xff) as u8) as u32) << 24u32)) == x,
{
}

proof fn lemma_u64_bytes(x: u64)
    by (bit_vector)
    ensures
        ((((x & 0xff) as u8) as u64) | (((((x >> 8u64) & 0xff) as u8) as u64) << 8u64) | (((((x >> 16u64) & 0xff) as u8) as u64) << 16u64) | (((((x >> 24u64) & 0xff) as u8) as u64) << 24u64) | (((((x >> 32u64) & 0xff) as u8) as u64) << 32u64) | (((((x >> 40u64) & 0xff) as u8) as u64) << 40u64) | (((((x >> 48u64) & 0xff) as u8) as u64) << 48u64) | (((((x >> 56u64) & 0xff) as u8) as u64) << 56u64)) == x,
{
}

/// The record of a task is valid and holds exactly that task.
pub proof fn lemma_record_roundtrip(t: WatcherTask, u: WatcherTask)
    ensures
        valid_record(task_record(t)),
        record_holds(task_record(t), t),
        record_holds(task_record(t), u) ==> u == t,
{
    let b = task_record(t);
    let pb = path_bytes(t.path@);
    assert(t.path@.len() == 260);
    assert(b.len() == 552);
    lemma_u32_bytes(t.id);
    lemma_u32_bytes(algorithm_code(t.algorithm));
    lemma_u64_bytes(t.last_run_timestamp);
    assert(read_u32(b, 0) == t.id);
    assert(read_u32(b, 524) == algorithm_code(t.algorithm));
    assert(read_u64(b, 536) == t.last_run_timestamp);
    assert forall|i: int| 0 <= i < 260 implies #[trigger] t.path@[i] == read_u16(b, 4 + 2 * i) by {
        assert(b[4 + 2 * i] == pb[2 * i]);
        assert(b[4 + 2 * i + 1] == pb[2 * i + 1]);
        assert((2 * i) / 2 == i && (2 * i) % 2 == 0);
        assert((2 * i + 1) / 2 == i && (2 * i + 1) % 2 == 1);
        lemma_u16_bytes(t.path@[i]);
    }
    assert(b.subrange(544, 548) =~= t._padding@);
    if record_holds(b, u) {
        assert(u.path@ =~= t.path@);
        assert(u.path == t.path);
        assert(u._padding@ =~= t._padding@);
        assert(u._padding == t._padding);
        crate::wof::lemma_algorithm_code_injective(u.algorithm, t.algorithm);
    }
}


proof fn lemma_task_file_push(ts: Seq<WatcherTask>, t: WatcherTask)
    ensures
        task_file(ts.push(t)) == task_file(ts) + task_record(t),
    decreases ts.len(),
{
    if ts.len() == 0 {
        let e = Seq::<WatcherTask>::empty();
        assert(ts.push(t).drop_first() =~= e);
        assert(task_file(e) == Seq::<u8>::empty());
        assert(ts.push(t)[0] == t);
        assert(task_file(ts.push(t)) == task_record(t) + task_file(e));
        assert(task_file(ts) == Seq::<u8>::empty());
        assert(task_file(ts.push(t)) =~= task_file(ts) + task_record(t));
    } else {
        lemma_task_file_push(ts.drop_first(), t);
        assert(ts.push(t).drop_first() =~= ts.drop_first().push(t));
        assert(task_file(ts.push(t)) =~= task_file(ts) + task_record(t));
    }
}

proof fn lemma_record_len(t: WatcherTask)
    ensures
        task_record(t).len() == 552,
{
    assert(t.path@.len() == 260);
}

/// Whether `t` is stored at the start of `b` depends on the first record's bytes only.
proof fn lemma_record_prefix(r: Seq<u8>, rest: Seq<u8>, u: WatcherTask)
    requires
        r.len() == 552,
    ensures
        record_holds(r + rest, u) == record_holds(r, u),
{
    let b = r + rest;
    assert(b.subrange(544, 548) =~= r.subrange(544, 548));
    assert forall|i: int| 0 <= i < 260 implies #[trigger] read_u16(b, 4 + 2 * i) == read_u16(r, 4 + 2 * i) by {
        assert(b[4 + 2 * i] == r[4 + 2 * i]);
        assert(b[4 + 2 * i + 1] == r[4 + 2 * i + 1]);
    }
    assert(read_u32(b, 0) == read_u32(r, 0));
    assert(read_u32(b, 524) == read_u32(r, 524));
    assert(read_u64(b, 536) == read_u64(r, 536));
}

proof fn lemma_record_valid(t: WatcherTask, rest: Seq<u8>)
    ensures
        valid_record(task_record(t) + rest),
        (task_record(t) + rest).skip(552) == rest,
{
    let r = task_record(t);
    lemma_record_len(t);
    let b = r + rest;
    lemma_u32_bytes(algorithm_code(t.algorithm));
    assert(read_u32(b, 524) == read_u32(r, 524));
    assert(b.skip(552) =~= rest);
}

proof fn lemma_task_file_len(ts: Seq<WatcherTask>)
    ensures
        task_file(ts).len() == 552 * ts.len(),
    decreases ts.len(),
{
    if ts.len() > 0 {
        lemma_record_len(ts[0]);
        lemma_task_file_len(ts.drop_first());
    }
}

proof fn lemma_task_file_count(ts: Seq<WatcherTask>)
    ensures
        record_count(task_file(ts)) == ts.len(),
    decreases ts.len(),
{
    if ts.len() > 0 {
        lemma_record_valid(ts[0], task_file(ts.drop_first()));
        lemma_task_file_count(ts.drop_first());
    } else {
        assert(!valid_record(task_file(ts)));
    }
}

proof fn lemma_task_file_skip(ts: Seq<WatcherTask>, i: int)
    requires
        0 <= i <= ts.len(),
    ensures
        task_file(ts).skip(552 * i) == task_file(ts.skip(i)),
    decreases i,
{
    if i == 0 {
        assert(task_file(ts).skip(0) =~= task_file(ts));
        assert(ts.skip(0) =~= ts);
    } else {
        lemma_record_len(ts[0]);
        lemma_task_file_skip(ts.drop_first(), i - 1);
        let rest = task_file(ts.drop_first());
        lemma_task_file_len(ts.drop_first());
        assert(task_file(ts) == task_record(ts[0]) + rest);
        let a = task_file(ts).skip(552 * i);
        let c = rest.skip(552 * (i - 1));
        assert(a.len() == c.len());
        assert forall|k: int| 0 <= k < a.len() implies a[k] == c[k] by {
            assert(a[k] == task_file(ts)[552 * i + k]);
            assert(552 * i + k >= 552);
            assert(task_file(ts)[552 * i + k] == rest[552 * i + k - 552]);
            assert(552 * i + k - 552 == 552 * (i - 1) + k);
        }
        assert(a =~= c);
        assert(ts.drop_first().skip(i - 1) =~= ts.skip(i));
    }
}

/// Loading a task file gives back the tasks it was saved from.
pub proof fn lemma_load_after_save(ts: Seq<WatcherTask>, us: Seq<WatcherTask>)
    requires
        us.len() == record_count(task_file(ts)),
        forall|i: int| 0 <= i < us.len() ==> record_holds(#[trigger] task_file(ts).skip(552 * i), us[i]),
    ensures
        us == ts,
{
    lemma_task_file_count(ts);
    assert forall|i: int| 0 <= i < ts.len() implies us[i] == ts[i] by {
        let b = task_file(ts).skip(552 * i);
        assert(record_holds(b, us[i]));
        lemma_task_file_skip(ts, i);
        assert(ts.skip(i)[0] == ts[i]);
        let r = task_record(ts[i]);
        let rest = task_file(ts.skip(i).drop_first());
        assert(task_file(ts.skip(i)) == r + rest);
        lemma_record_len(ts[i]);
        lemma_record_prefix(r, rest, us[i]);
        lemma_record_roundtrip(ts[i], us[i]);
    }
    assert(us =~= ts);
}

fn push_u32(out: &mut Vec<u8>, x: u32)
    ensures
        final(out)@ == old(out)@ + le_u32(x),
{
    out.push((x & 0xff) as u8);
    out.push(((x >> 8) & 0xff) as u8);
    out.push(((x >> 16) & 0xff) as u8);
    out.push(((x >> 24) & 0xff) as u8);
    assert(out@ =~= old(out)@ + le_u32(x));
}

fn push_u64(out: &mut Vec<u8>, x: u64)
    ensures
        final(out)@ == old(out)@ + le_u64(x),
{
    out.push((x & 0xff) as u8);
    out.push(((x >> 8) & 0xff) as u8);
    out.push(((x >> 16) & 0xff) as u8);
    out.push(((x >> 24) & 0xff) as u8);
    out.push(((x >> 32) & 0xff) as u8);
    out.push(((x >> 40) & 0xff) as u8);
    out.push(((x >> 48) & 0xff) as u8);
    out.push(((x >> 56) & 0xff) as u8);
    assert(out@ =~= old(out)@ + le_u64(x));
}

fn push_record(out: &mut Vec<u8>, t: &WatcherTask)
    ensures
        final(out)@ == old(out)@ + task_record(*t),
{
    push_u32(out, t.id);
    let ghost start = out@;
    let mut i: usize = 0;
    while i < 260
        invariant
            0 <= i <= 260,
            t.path@.len() == 260,
            out@ == start + path_bytes(t.path@.take(i as int)),
        decreases 260 - i,
    {
        let u = t.path[i];
        out.push((u & 0xff) as u8);
        out.push(((u >> 8) & 0xff) as u8);
        proof {
            let p1 = t.path@.take(i + 1);
            let p0 = t.path@.take(i as int);
            assert forall|k: int| 0 <= k < 2 * p0.len() implies #[trigger] path_bytes(p1)[k] == path_bytes(p0)[k] by {
                assert(k / 2 < i);
            }
            assert(path_bytes(p1)[2 * i] == (u & 0xff) as u8) by {
                assert((2 * i) / 2 == i as int && (2 * i) % 2 == 0);
            }
            assert(path_bytes(p1)[2 * i + 1] == ((u >> 8u16) & 0xff) as u8) by {
                assert((2 * i + 1) / 2 == i as int && (2 * i + 1) % 2 == 1);
            }
            assert(path_bytes(p1) =~= path_bytes(p0).push((u & 0xff) as u8).push(((u >> 8u16) & 0xff) as u8));
        }
        i += 1;
    }
    assert(t.path@.take(260) =~= t.path@);
    push_u32(out, t.algorithm.code());
    out.push(t.days_mask);
    out.push(t.time_hour);
    out.push(t.time_minute);
    out.push(0);
    out.push(0);
    out.push(0);
    out.push(0);
    out.push(0);
    push_u64(out, t.last_run_timestamp);
    out.push(t._padding[0]);
    out.push(t._padding[1]);
    out.push(t._padding[2]);
    out.push(t._padding[3]);
    out.push(0);
    out.push(0);
    out.push(0);
    out.push(0);
    assert(out@ =~= old(out)@ + task_record(*t));
}

/// The bytes of the task file for `tasks`.
pub fn encode_tasks(tasks: &[WatcherTask]) -> (r: Vec<u8>)
    ensures
        r@ == task_file(tasks@),
{
    let mut out: Vec<u8> = Vec::new();
    let mut i: usize = 0;
    assert(tasks@.take(0) =~= Seq::<WatcherTask>::empty());
    while i < tasks.len()
        invariant
            0 <= i <= tasks@.len(),
            out@ == task_file(tasks@.take(i as int)),
        decreases tasks@.len() - i,
    {
        push_record(&mut out, &tasks[i]);
        proof {
            lemma_task_file_push(tasks@.take(i as int), tasks@[i as int]);
            assert(tasks@.take(i + 1) =~= tasks@.take(i as int).push(tasks@[i as int]));
        }
        i += 1;
    }
    assert(tasks@.take(tasks@.len() as int) =~= tasks@);
    out
}

fn get_u32(b: &[u8], at: usize) -> (r: u32)
    requires
        at + 4 <= b@.len(),
    ensures
        r == read_u32(b@, at as int),
{
    (b[at] as u32) | ((b[at + 1] as u32) << 8) | ((b[at + 2] as u32) << 16) | ((b[at + 3] as u32) << 24)
}

fn get_u64(b: &[u8], at: usize) -> (r: u64)
    requires
        at + 8 <= b@.len(),
    ensures
        r == read_u64(b@, at as int),
{
    (b[at] as u64) | ((b[at + 1] as u64) << 8) | ((b[at + 2] as u64) << 16) | ((b[at + 3] as u64) << 24)
        | ((b[at + 4] as u64) << 32) | ((b[at + 5] as u64) << 40) | ((b[at + 6] as u64) << 48)
        | ((b[at + 7] as u64) << 56)
}

/// The task stored at `at`, or `None` when its algorithm is not a known one.
fn decode_record(b: &[u8], at: usize) -> (r: Option<WatcherTask>)
    requires
        at + 552 <= b@.len(),
    ensures
        valid_record(b@.skip(at as int)) ==> (r matches Some(t) && record_holds(b@.skip(at as int), t)),
        !valid_record(b@.skip(at as int)) ==> r is None,
{
    let ghost s = b@.skip(at as int);
    assert(b@.len() == b.len());
    let code = get_u32(b, at + 524);
    assert(read_u32(s, 524) == read_u32(b@, at + 524));
    let algorithm = match WofAlgorithm::from_code(code) {
        Some(a) => a,
        None => return None,
    };
    let mut path = [0u16; 260];
    let mut i: usize = 0;
    while i < 260
        invariant
            at + 552 <= b@.len(),
            b@.len() == b.len(),
            s == b@.skip(at as int),
            0 <= i <= 260,
            path@.len() == 260,
            forall|j: int| 0 <= j < i ==> #[trigger] path@[j] == read_u16(s, 4 + 2 * j),
        decreases 260 - i,
    {
        let lo = b[at + 4 + 2 * i];
        let hi = b[at + 4 + 2 * i + 1];
        path[i] = (lo as u16) | ((hi as u16) << 8);
        assert(s[4 + 2 * i] == lo && s[4 + 2 * i + 1] == hi);
        i += 1;
    }
    let id = get_u32(b, at);
    let ts = get_u64(b, at + 536);
    assert(read_u32(s, 0) == read_u32(b@, at as int));
    assert(read_u64(s, 536) == read_u64(b@, at + 536));
    let padding: [u8; 4] = [b[at + 544], b[at + 545], b[at + 546], b[at + 547]];
    assert(padding@ =~= s.subrange(544, 548));
    let t = WatcherTask {
        id,
        path,
        algorithm,
        days_mask: b[at + 528],
        time_hour: b[at + 529],
        time_minute: b[at + 530],
        last_run_timestamp: ts,
        _padding: padding,
    };
    Some(t)
}

/// The tasks of a task file: whole records in order, up to the first one
/// whose algorithm is not a known one; a partial record at the end is ignored.
pub fn decode_tasks(bytes: &[u8]) -> (r: Vec<WatcherTask>)
    ensures
        r@.len() == record_count(bytes@),
        forall|i: int| 0 <= i < r@.len() ==> record_holds(#[trigger] bytes@.skip(552 * i), r@[i]),
{
    let mut out: Vec<WatcherTask> = Vec::new();
    let mut at: usize = 0;
    assert(bytes@.skip(0) =~= bytes@);
    while at <= bytes.len() && bytes.len() - at >= 552
        invariant
            at == 552 * out@.len(),
            at <= bytes@.len(),
            record_count(bytes@) == out@.len() + record_count(bytes@.skip(at as int)),
            forall|i: int| 0 <= i < out@.len() ==> record_holds(#[trigger] bytes@.skip(552 * i), out@[i]),
        decreases bytes@.len() - at,
    {
        match decode_record(bytes, at) {
            Some(t) => {
                assert(bytes@.skip(at as int).skip(552) =~= bytes@.skip(at + 552));
                out.push(t);
                at = at + 552;
            },
            None => {
                return out;
            },
        }
    }
    out
}


/// The short name of day `d` (0 Monday ... 6 Sunday).
pub open spec fn day_name(d: int) -> Seq<char> {
    if d == 0 {
        seq!['M', 'o', 'n']
    } else if d == 1 {
        seq!['T', 'u', 'e']
    } else if d == 2 {
        seq!['W', 'e', 'd']
    } else if d == 3 {
        seq!['T', 'h', 'u']
    } else if d == 4 {
        seq!['F', 'r', 'i']
    } else if d == 5 {
        seq!['S', 'a', 't']
    } else {
        seq!['S', 'u', 'n']
    }
}

/// The bit of day `d` in a days mask.
pub open spec fn day_bit(d: int) -> u8 {
    if d == 0 {
        1
    } else if d == 1 {
        2
    } else if d == 2 {
        4
    } else if d == 3 {
        8
    } else if d == 4 {
        16
    } else if d == 5 {
        32
    } else {
        64
    }
}

/// The bit that stands for every day.
pub const EVERY_DAY: u8 = 0x80;

/// The names of the days among the first `k` that `mask` selects, joined by `, `.
pub open spec fn days_text(mask: u8, k: int) -> Seq<char>
    decreases k,
{
    if k <= 0 {
        Seq::empty()
    } else {
        let prev = days_text(mask, k - 1);
        if mask & day_bit(k - 1) != 0 {
            if prev.len() == 0 {
                day_name(k - 1)
            } else {
                prev + seq![',', ' '] + day_name(k - 1)
            }
        } else {
            prev
        }
    }
}

/// `Every Day at `.
pub open spec fn every_day_words() -> Seq<char> {
    seq!['E', 'v', 'e', 'r', 'y', ' ', 'D', 'a', 'y', ' ', 'a', 't', ' ']
}

/// The schedule column of the watch list (NUL-terminated UTF-16):
/// `Every Day at HH:MM`, or the selected days and ` at HH:MM`.
pub open spec fn schedule_units(mask: u8, hour: u8, minute: u8) -> Seq<u16> {
    let time = decimal2(hour as nat) + seq![0x3Au16] + decimal2(minute as nat);
    if mask & EVERY_DAY != 0 {
        (utf16_encode(every_day_words()) + time).push(0u16)
    } else {
        (utf16_encode(days_text(mask, 7) + seq![' ', 'a', 't', ' ']) + time).push(0u16)
    }
}

/// The days of the week in order, Monday first, as the schedule names them.
pub open spec fn week_day_names() -> Seq<Seq<char>> {
    seq!["Mon"@, "Tue"@, "Wed"@, "Thu"@, "Fri"@, "Sat"@, "Sun"@]
}

/// Day bit `d` (bit `d` of the mask, Monday at bit 0) is named by the `d`-th
/// day of the week; the seven names are pairwise different, and the seven
/// bits are the low seven bits, one each.
pub proof fn lemma_day_names(d: int, e: int)
    requires
        0 <= d < 7,
        0 <= e < 7,
    ensures
        day_name(d) == week_day_names()[d],
        d != e ==> day_name(d) != day_name(e),
        day_bit(d) as int == pow2_small(d),
{
    reveal_strlit("Mon");
    reveal_strlit("Tue");
    reveal_strlit("Wed");
    reveal_strlit("Thu");
    reveal_strlit("Fri");
    reveal_strlit("Sat");
    reveal_strlit("Sun");
    reveal_with_fuel(pow2_small, 7);
    assert(day_name(d) =~= week_day_names()[d]);
    if d != e {
        assert(day_name(d)[0] != day_name(e)[0] || day_name(d)[1] != day_name(e)[1]);
    }
}

/// 2 to the power `d`, for a small `d`.
pub open spec fn pow2_small(d: int) -> int
    decreases d,
{
    if d <= 0 {
        1
    } else {
        2 * pow2_small(d - 1)
    }
}

/// Every selected day's name appears in the days text; with no day selected
/// the text is empty.
pub proof fn lemma_days_text_names_selected(mask: u8, k: int, d: int)
    requires
        0 <= d < k <= 7,
    ensures
        mask & day_bit(d) != 0 ==> contains_seq(days_text(mask, k), day_name(d)),
        (forall|e: int| 0 <= e < k ==> mask & #[trigger] day_bit(e) == 0) ==> days_text(mask, k).len() == 0,
    decreases k,
{
    if d < k - 1 {
        lemma_days_text_names_selected(mask, k - 1, d);
        let prev = days_text(mask, k - 1);
        if mask & day_bit(d) != 0 && mask & day_bit(k - 1) != 0 && prev.len() > 0 {
            let i = choose|i: int| #[trigger] occurs_at(prev, day_name(d), i);
            let whole = prev + seq![',', ' '] + day_name(k - 1);
            assert(whole.subrange(i, i + day_name(d).len()) =~= prev.subrange(i, i + day_name(d).len()));
            assert(occurs_at(whole, day_name(d), i));
        }
    } else {
        let prev = days_text(mask, k - 1);
        if mask & day_bit(d) != 0 {
            let name = day_name(d);
            if prev.len() == 0 {
                assert(days_text(mask, k).subrange(0, name.len() as int) =~= name);
                assert(occurs_at(days_text(mask, k), name, 0));
            } else {
                let whole = prev + seq![',', ' '] + name;
                let i: int = prev.len() as int + 2;
                assert(whole.subrange(i, i + name.len()) =~= name);
                assert(occurs_at(whole, name, i));
            }
        }
        if k > 1 {
            lemma_days_text_names_selected(mask, k - 1, 0);
        }
    }
    if (forall|e: int| 0 <= e < k ==> mask & #[trigger] day_bit(e) == 0) && k > 1 {
        lemma_days_text_names_selected(mask, k - 1, 0);
    }
}

/// A task for a single day shows that day's name and the time.
pub proof fn lemma_single_day_schedule(d: int, hour: u8, minute: u8)
    requires
        0 <= d < 7,
    ensures
        schedule_units(day_bit(d), hour, minute) == (utf16_encode(week_day_names()[d] + " at "@)
            + decimal2(hour as nat) + seq![0x3Au16] + decimal2(minute as nat)).push(0u16),
{
    lemma_day_names(d, d);
    reveal_strlit(" at ");
    let m = day_bit(d);
    assert(m & EVERY_DAY == 0) by (bit_vector)
        requires m == 1u8 || m == 2u8 || m == 4u8 || m == 8u8 || m == 16u8 || m == 32u8 || m == 64u8;
    assert forall|e: int| 0 <= e < 7 implies (m & #[trigger] day_bit(e) != 0 <==> e == d) by {
        let b = day_bit(e);
        assert(b == 1u8 || b == 2u8 || b == 4u8 || b == 8u8 || b == 16u8 || b == 32u8 || b == 64u8);
        assert((m & b != 0) <==> m == b) by (bit_vector)
            requires
                m == 1u8 || m == 2u8 || m == 4u8 || m == 8u8 || m == 16u8 || m == 32u8 || m == 64u8,
                b == 1u8 || b == 2u8 || b == 4u8 || b == 8u8 || b == 16u8 || b == 32u8 || b == 64u8;
    }
    lemma_single_day_text(m, d, 7);
    assert(seq![' ', 'a', 't', ' '] =~= " at "@);
}

proof fn lemma_single_day_text(m: u8, d: int, k: int)
    requires
        0 <= d < 7,
        0 <= k <= 7,
        forall|e: int| 0 <= e < 7 ==> (m & #[trigger] day_bit(e) != 0 <==> e == d),
    ensures
        days_text(m, k) == if d < k { day_name(d) } else { Seq::<char>::empty() },
    decreases k,
{
    if k > 0 {
        lemma_single_day_text(m, d, k - 1);
        assert(m & day_bit(k - 1) != 0 <==> k - 1 == d);
    }
}

fn day_chars(d: usize) -> (r: Vec<char>)
    ensures
        r@ == day_name(d as int),
{
    let r: Vec<char> = if d == 0 {
        vec!['M', 'o', 'n']
    } else if d == 1 {
        vec!['T', 'u', 'e']
    } else if d == 2 {
        vec!['W', 'e', 'd']
    } else if d == 3 {
        vec!['T', 'h', 'u']
    } else if d == 4 {
        vec!['F', 'r', 'i']
    } else if d == 5 {
        vec!['S', 'a', 't']
    } else {
        vec!['S', 'u', 'n']
    };
    assert(r@ =~= day_name(d as int));
    r
}

fn day_bit_exec(d: usize) -> (r: u8)
    ensures
        r == day_bit(d as int),
{
    if d == 0 {
        1
    } else if d == 1 {
        2
    } else if d == 2 {
        4
    } else if d == 3 {
        8
    } else if d == 4 {
        16
    } else if d == 5 {
        32
    } else {
        64
    }
}

/// The schedule text of a task for the watch list.
pub fn schedule_text(task: &WatcherTask) -> (r: Vec<u16>)
    ensures
        r@ == schedule_units(task.days_mask, task.time_hour, task.time_minute),
{
    let mut words: Vec<char> = Vec::new();
    if task.days_mask & EVERY_DAY != 0 {
        words = vec!['E', 'v', 'e', 'r', 'y', ' ', 'D', 'a', 'y', ' ', 'a', 't', ' '];
        assert(words@ =~= every_day_words());
    } else {
        let mut d: usize = 0;
        while d < 7
            invariant
                0 <= d <= 7,
                words@ == days_text(task.days_mask, d as int),
            decreases 7 - d,
        {
            if task.days_mask & day_bit_exec(d) != 0 {
                let name = day_chars(d);
                if words.len() > 0 {
                    words.push(',');
                    words.push(' ');
                }
                let mut j: usize = 0;
                let ghost before = words@;
                while j < name.len()
                    invariant
                        0 <= j <= name@.len(),
                        words@ == before + name@.take(j as int),
                    decreases name@.len() - j,
                {
                    words.push(name[j]);
                    assert(name@.take(j + 1) =~= name@.take(j as int).push(name@[j as int]));
                    j += 1;
                }
                assert(name@.take(name@.len() as int) =~= name@);
                assert(words@ =~= days_text(task.days_mask, d + 1));
            }
            d += 1;
        }
        words.push(' ');
        words.push('a');
        words.push('t');
        words.push(' ');
        assert(words@ =~= days_text(task.days_mask, 7) + seq![' ', 'a', 't', ' ']);
    }
    let mut out: Vec<u16> = Vec::new();
    push_chars_units(&mut out, &words);
    push_decimal2(&mut out, task.time_hour as u64);
    out.push(0x3A);
    push_decimal2(&mut out, task.time_minute as u64);
    out.push(0);
    assert(out@ =~= schedule_units(task.days_mask, task.time_hour, task.time_minute));
    out
}

/// Seconds from 1601-01-01 to 1970-01-01.
pub const UNIX_EPOCH_OFFSET_SECS: u64 = 11644473600;

/// A Unix time as the two halves (low, high) of a FILETIME count of 100 ns ticks.
pub fn unix_to_filetime(ts: u64) -> (r: (u32, u32))
    requires
        (ts + 11644473600) * 10000000 <= u64::MAX,
    ensures
        r.0 as int + r.1 as int * 0x1_0000_0000 == (ts + 11644473600) * 10000000,
{
    let ticks = (ts + UNIX_EPOCH_OFFSET_SECS) * 10_000_000;
    let lo = (ticks & 0xFFFF_FFFF) as u32;
    let hi = (ticks >> 32) as u32;
    assert(lo as int + hi as int * 0x1_0000_0000 == ticks) by (bit_vector)
        requires
            lo == (ticks & 0xFFFF_FFFF) as u32,
            hi == (ticks >> 32) as u32;
    (lo, hi)
}

/// The last-run column: `Never` for a task that never ran, `Error` when the
/// local time could not be had, else `YYYY-MM-DD HH:MM` from the local time
/// (year, month, day, hour, minute).
pub open spec fn last_run_units(ts: u64, local: Option<(u16, u16, u16, u16, u16)>) -> Seq<u16> {
    if ts == 0 {
        utf16_encode(seq!['N', 'e', 'v', 'e', 'r']).push(0u16)
    } else {
        match local {
            None => utf16_encode(seq!['E', 'r', 'r', 'o', 'r']).push(0u16),
            Some((y, mo, d, h, mi)) => (decimal(y as nat) + seq![0x2Du16] + decimal2(mo as nat) + seq![0x2Du16]
                + decimal2(d as nat) + seq![0x20u16] + decimal2(h as nat) + seq![0x3Au16] + decimal2(mi as nat)).push(0u16),
        }
    }
}

/// The last-run column of the watch list (see `last_run_units`).
pub fn last_run_text(ts: u64, local: Option<(u16, u16, u16, u16, u16)>) -> (r: Vec<u16>)
    ensures
        r@ == last_run_units(ts, local),
{
    let mut out: Vec<u16> = Vec::new();
    if ts == 0 {
        let w: Vec<char> = vec!['N', 'e', 'v', 'e', 'r'];
        push_chars_units(&mut out, &w);
        out.push(0);
        assert(w@ =~= seq!['N', 'e', 'v', 'e', 'r']);
        return out;
    }
    match local {
        None => {
            let w: Vec<char> = vec!['E', 'r', 'r', 'o', 'r'];
            push_chars_units(&mut out, &w);
            out.push(0);
            assert(w@ =~= seq!['E', 'r', 'r', 'o', 'r']);
            out
        },
        Some((y, mo, d, h, mi)) => {
            push_decimal(&mut out, y as u64);
            out.push(0x2D);
            push_decimal2(&mut out, mo as u64);
            out.push(0x2D);
            push_decimal2(&mut out, d as u64);
            out.push(0x20);
            push_decimal2(&mut out, h as u64);
            out.push(0x3A);
            push_decimal2(&mut out, mi as u64);
            out.push(0);
            assert(out@ =~= last_run_units(ts, local));
            out
        },
    }
}

/// The days mask from the check boxes of the task dialog: every day, or the
/// days checked (Monday first).
pub fn days_mask_from_checks(every_day: bool, days: &[bool; 7]) -> (r: u8)
    ensures
        every_day ==> r == EVERY_DAY,
        !every_day ==> forall|d: int| 0 <= d < 7 ==> (r & day_bit(d) != 0 <==> days@[d]),
        !every_day ==> r & EVERY_DAY == 0,
{
    if every_day {
        return EVERY_DAY;
    }
    let b0: u8 = if days[0] { 1 } else { 0 };
    let b1: u8 = if days[1] { 2 } else { 0 };
    let b2: u8 = if days[2] { 4 } else { 0 };
    let b3: u8 = if days[3] { 8 } else { 0 };
    let b4: u8 = if days[4] { 16 } else { 0 };
    let b5: u8 = if days[5] { 32 } else { 0 };
    let b6: u8 = if days[6] { 64 } else { 0 };
    let mask = b0 | b1 | b2 | b3 | b4 | b5 | b6;
    assert({
        &&& (mask & 1 != 0 <==> b0 != 0)
        &&& (mask & 2 != 0 <==> b1 != 0)
        &&& (mask & 4 != 0 <==> b2 != 0)
        &&& (mask & 8 != 0 <==> b3 != 0)
        &&& (mask & 16 != 0 <==> b4 != 0)
        &&& (mask & 32 != 0 <==> b5 != 0)
        &&& (mask & 64 != 0 <==> b6 != 0)
        &&& mask & 0x80 == 0
    }) by (bit_vector)
        requires
            mask == b0 | b1 | b2 | b3 | b4 | b5 | b6,
            b0 == 0 || b0 == 1,
            b1 == 0 || b1 == 2,
            b2 == 0 || b2 == 4,
            b3 == 0 || b3 == 8,
            b4 == 0 || b4 == 16,
            b5 == 0 || b5 == 32,
            b6 == 0 || b6 == 64;
    mask
}

/// The checks of the task dialog, in the order it makes them: a path is
/// needed, the time must be valid, at least one day must be chosen.
pub fn check_task_input(path_len: usize, hour: u8, minute: u8, mask: u8) -> (r: Result<(), &'static str>)
    ensures
        path_len == 0 ==> r == Err::<(), &'static str>("Please select a path."),
        path_len != 0 && (hour > 23 || minute > 59) ==> r == Err::<(), &'static str>("Invalid time."),
        path_len != 0 && hour <= 23 && minute <= 59 && mask == 0 ==> r == Err::<(), &'static str>("Please select at least one day."),
        path_len != 0 && hour <= 23 && minute <= 59 && mask != 0 ==> r is Ok,
{
    if path_len == 0 {
        Err("Please select a path.")
    } else if hour > 23 || minute > 59 {
        Err("Invalid time.")
    } else if mask == 0 {
        Err("Please select at least one day.")
    } else {
        Ok(())
    }
}

/// The value of a string of decimal digits.
pub open spec fn digits_value(s: Seq<char>) -> nat
    decreases s.len(),
{
    if s.len() == 0 {
        0
    } else {
        digits_value(s.drop_last()) * 10 + (s.last() as nat - '0' as nat) as nat
    }
}

/// Whether every character is an ASCII digit.
pub open spec fn all_digits(s: Seq<char>) -> bool {
    forall|i: int| 0 <= i < s.len() ==> '0' <= #[trigger] s[i] <= '9'
}

/// `str::parse::<u8>`: an optional `+` and then one or more digits whose value fits.
pub open spec fn parse_u8(s: Seq<char>) -> Option<u8> {
    let d = if s.len() > 0 && s[0] == '+' { s.drop_first() } else { s };
    if d.len() > 0 && all_digits(d) && digits_value(d) <= 255 {
        Some(digits_value(d) as u8)
    } else {
        None
    }
}

/// A time field of the task dialog: its number, or 0 when it is not one.
pub fn parse_time_field(text: &str) -> (r: u8)
    ensures
        r == match parse_u8(text@) {
            Some(v) => v,
            None => 0u8,
        },
{
    let cs = crate::text::collect_chars(text);
    let start: usize = if cs.len() > 0 && cs[0] == '+' { 1 } else { 0 };
    let ghost d = if cs@.len() > 0 && cs@[0] == '+' { cs@.drop_first() } else { cs@ };
    assert(d =~= cs@.skip(start as int));
    if start >= cs.len() {
        return 0;
    }
    let mut acc: u32 = 0;
    let mut i = start;
    while i < cs.len()
        invariant
            start <= i <= cs@.len(),
            text@ == cs@,
            d == (if cs@.len() > 0 && cs@[0] == '+' { cs@.drop_first() } else { cs@ }),
            d == cs@.skip(start as int),
            all_digits(cs@.subrange(start as int, i as int)),
            acc == if digits_value(cs@.subrange(start as int, i as int)) < 256 {
                digits_value(cs@.subrange(start as int, i as int))
            } else {
                256
            },
        decreases cs@.len() - i,
    {
        let c = cs[i];
        if !('0' <= c && c <= '9') {
            assert(!all_digits(d)) by {
                assert(d[i - start] == c);
                assert(!('0' <= d[i - start] <= '9'));
            }
            return 0;
        }
        let digit = (c as u32) - ('0' as u32);
        let ghost prev = cs@.subrange(start as int, i as int);
        assert(cs@.subrange(start as int, i + 1).drop_last() =~= prev);
        let next = acc * 10 + digit;
        acc = if next < 256 { next } else { 256 };
        assert(all_digits(cs@.subrange(start as int, i + 1))) by {
            assert forall|k: int| 0 <= k < i + 1 - start implies '0' <= #[trigger] cs@.subrange(start as int, i + 1)[k] <= '9' by {
                if k < i - start {
                    assert(cs@.subrange(start as int, i + 1)[k] == prev[k]);
                }
            }
        }
        i += 1;
    }
    assert(cs@.subrange(start as int, cs@.len() as int) =~= d);
    if acc < 256 {
        acc as u8
    } else {
        0
    }
}

/// The largest id among the tasks (0 for none).
pub open spec fn max_task_id(ts: Seq<WatcherTask>) -> u32
    decreases ts.len(),
{
    if ts.len() == 0 {
        0
    } else {
        let m = max_task_id(ts.drop_last());
        if ts.last().id > m { ts.last().id } else { m }
    }
}

proof fn lemma_max_task_id(ts: Seq<WatcherTask>)
    ensures
        forall|i: int| 0 <= i < ts.len() ==> #[trigger] ts[i].id <= max_task_id(ts),
        ts.len() == 0 || exists|i: int| 0 <= i < ts.len() && #[trigger] ts[i].id == max_task_id(ts),
    decreases ts.len(),
{
    if ts.len() > 0 {
        lemma_max_task_id(ts.drop_last());
        assert forall|i: int| 0 <= i < ts.len() implies #[trigger] ts[i].id <= max_task_id(ts) by {
            if i < ts.len() - 1 {
                assert(ts[i] == ts.drop_last()[i]);
            }
        }
        if ts.last().id <= max_task_id(ts.drop_last()) && ts.len() > 1 {
            let j = choose|j: int| 0 <= j < ts.drop_last().len() && #[trigger] ts.drop_last()[j].id == max_task_id(ts.drop_last());
            assert(ts[j].id == max_task_id(ts));
        }
        assert(ts[ts.len() - 1] == ts.last());
    }
}

/// The id for a new task: one more than the largest id in use.
pub fn next_task_id(tasks: &[WatcherTask]) -> (r: u32)
    requires
        max_task_id(tasks@) < u32::MAX,
    ensures
        r == max_task_id(tasks@) + 1,
        forall|i: int| 0 <= i < tasks@.len() ==> tasks@[i].id < r,
{
    let mut m: u32 = 0;
    let mut i: usize = 0;
    assert(tasks@.take(0) =~= Seq::<WatcherTask>::empty());
    while i < tasks.len()
        invariant
            0 <= i <= tasks@.len(),
            m == max_task_id(tasks@.take(i as int)),
        decreases tasks@.len() - i,
    {
        assert(tasks@.take(i + 1).drop_last() =~= tasks@.take(i as int));
        if tasks[i].id > m {
            m = tasks[i].id;
        }
        i += 1;
    }
    assert(tasks@.take(tasks@.len() as int) =~= tasks@);
    proof {
        lemma_max_task_id(tasks@);
    }
    m + 1
}

/// Saves the task dialog's values: into the task at `edit_index` when it
/// exists (its id, last run and padding stay), as a new task with a fresh id
/// when there is no index; an index past the end changes nothing.
pub fn save_task_entry(
    tasks: &mut Vec<WatcherTask>,
    edit_index: Option<usize>,
    path_str: &str,
    algorithm: WofAlgorithm,
    mask: u8,
    hour: u8,
    minute: u8,
)
    requires
        edit_index is None ==> max_task_id(old(tasks)@) < u32::MAX,
    ensures
        match edit_index {
            Some(idx) => if idx < old(tasks)@.len() {
                final(tasks)@ == old(tasks)@.update(idx as int, WatcherTask {
                    path: final(tasks)@[idx as int].path,
                    algorithm,
                    days_mask: mask,
                    time_hour: hour,
                    time_minute: minute,
                    ..old(tasks)@[idx as int]
                }) && final(tasks)@[idx as int].path@ == path_field(path_str@)
            } else {
                final(tasks)@ == old(tasks)@
            },
            None => final(tasks)@.len() == old(tasks)@.len() + 1
                && final(tasks)@.drop_last() == old(tasks)@
                && final(tasks)@.last().id == max_task_id(old(tasks)@) + 1
                && final(tasks)@.last().path@ == path_field(path_str@)
                && final(tasks)@.last().algorithm == algorithm
                && final(tasks)@.last().days_mask == mask
                && final(tasks)@.last().time_hour == hour
                && final(tasks)@.last().time_minute == minute
                && final(tasks)@.last().last_run_timestamp == 0
                && final(tasks)@.last()._padding@ == seq![0u8, 0u8, 0u8, 0u8],
        },
{
    match edit_index {
        Some(idx) => {
            if idx < tasks.len() {
                let mut t = tasks[idx];
                t.set_path(path_str);
                t.algorithm = algorithm;
                t.days_mask = mask;
                t.time_hour = hour;
                t.time_minute = minute;
                tasks.set(idx, t);
            }
        },
        None => {
            let id = next_task_id(tasks.as_slice());
            let t = WatcherTask::new(id, path_str, algorithm, mask, hour, minute);
            tasks.push(t);
            assert(tasks@.drop_last() =~= old(tasks)@);
        },
    }
}

} // verus!
