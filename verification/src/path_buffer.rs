//! A buffer for building null-terminated UTF-16 paths with few
//! reallocations; `/` becomes `\` as text is appended.
use vstd::prelude::*;
use crate::wide::{utf16_encode, utf16_decode_lossy, push_char_units, lemma_encode_push, from_utf16_lossy,
    lemma_decode_encode, lemma_decode_keeps_length, lemma_encode_append, utf16_of_char, wz};
use crate::text::{collect_chars, contains_chars, starts_with_chars};

verus! {

/// The code unit of `\`.
pub const BACKSLASH: u16 = 0x5C;

/// The characters with every `/` replaced by `\`.
pub open spec fn slashes_to_backslashes(s: Seq<char>) -> Seq<char> {
    s.map_values(|c: char| if c == '/' { '\\' } else { c })
}

/// The units of `s` up to (not including) its first NUL.
pub open spec fn before_nul(s: Seq<u16>) -> Seq<u16>
    decreases s.len(),
{
    if s.len() == 0 {
        s
    } else if s[0] == 0 {
        Seq::empty()
    } else {
        seq![s[0]] + before_nul(s.drop_first())
    }
}

/// The text after appending `part`: a `\` goes between when the text is not
/// empty and does not end in one.
pub open spec fn joined(text: Seq<u16>, part: Seq<u16>) -> Seq<u16> {
    if text.len() == 0 || text.last() == BACKSLASH {
        text + part
    } else {
        text.push(BACKSLASH) + part
    }
}

/// The units after cutting to `len` units: nothing changes when they are not
/// longer; otherwise a NUL is put back at the end unless the cut ends in one.
pub open spec fn truncated(units: Seq<u16>, len: int) -> Seq<u16> {
    if len >= units.len() {
        units
    } else {
        let cut = units.take(len);
        if cut.len() > 0 && cut.last() == 0 {
            cut
        } else {
            cut.push(0u16)
        }
    }
}

/// The long-path prefix `\\?\`.
pub open spec fn long_prefix() -> Seq<u16> {
    seq![0x5Cu16, 0x5Cu16, 0x3Fu16, 0x5Cu16]
}

/// The long-path prefix `\\?\` as characters.
pub open spec fn long_prefix_chars() -> Seq<char> {
    seq!['\\', '\\', '?', '\\']
}

/// A path buffer.
pub struct PathBuffer {
    /// A string followed by its terminating NUL (just the NUL when empty).
    buf: Vec<u16>,
}

impl View for PathBuffer {
    type V = Seq<u16>;

    /// All units of the buffer, the terminating NUL included.
    closed spec fn view(&self) -> Seq<u16> {
        self.buf@
    }
}

impl PathBuffer {
    /// The buffer ends with the NUL that terminates its text.
    pub open spec fn wf(&self) -> bool {
        self@.len() > 0 && self@.last() == 0
    }

    /// The number of units of the path, without the terminating NUL.
    pub open spec fn len_spec(&self) -> nat {
        self.text().len()
    }

    /// The path held, without the terminating NUL.
    pub open spec fn text(&self) -> Seq<u16> {
        if self@.len() == 0 {
            Seq::empty()
        } else {
            self@.drop_last()
        }
    }

    /// A new buffer holding the empty path (just its NUL), with room for at
    /// least `capacity` units (never less than 1024).
    pub fn with_capacity(capacity: usize) -> (r: Self)
        ensures
            r.wf(),
            r@ == seq![0u16],
            r.text().len() == 0,
    {
        let cap = if capacity > 1024 { capacity } else { 1024 };
        let mut buf: Vec<u16> = Vec::with_capacity(cap);
        buf.push(0);
        PathBuffer { buf }
    }

    /// A buffer holding `s` with `/` turned into `\`. A string of more than 240
    /// bytes that holds a `:` and does not start with `\\?\` gets that prefix.
    pub fn from(s: &str) -> (r: Self)
        ensures
            r.wf(),
            ({
                let enc = utf16_encode(slashes_to_backslashes(s@));
                let needs_prefix = s.len() > 240 && s@.contains(':')
                    && !(4 <= s@.len() && s@.take(4) == long_prefix_chars());
                &&& needs_prefix ==> r.text() == long_prefix() + enc
                &&& !needs_prefix ==> r.text() == enc
            }),
            r@.len() > 0,
    {
        let mut pb = Self::with_capacity(s.len().saturating_add(10));
        let cs = collect_chars(s);
        let colon: Vec<char> = vec![':'];
        let prefix_chars: Vec<char> = vec!['\\', '\\', '?', '\\'];
        assert(prefix_chars@ =~= long_prefix_chars());
        let has_colon = contains_chars(&cs, &colon);
        proof {
            assert(has_colon == cs@.contains(':')) by {
                if cs@.contains(':') {
                    let i = choose|i: int| 0 <= i < cs@.len() && cs@[i] == ':';
                    assert(cs@.subrange(i, i + 1) =~= colon@);
                    assert(crate::text::occurs_at(cs@, colon@, i));
                }
                if has_colon {
                    let i = choose|i: int| #[trigger] crate::text::occurs_at(cs@, colon@, i);
                    assert(cs@.subrange(i, i + 1)[0] == ':');
                }
            }
        }
        let sw = starts_with_chars(&cs, &prefix_chars);
        assert(sw == (4 <= s@.len() && s@.take(4) == long_prefix_chars()));
        assert(has_colon == s@.contains(':'));
        let needs_prefix = s.len() > 240 && has_colon && !sw;
        if needs_prefix {
            pb.buf.pop();
            pb.buf.push(0x5C);
            pb.buf.push(0x5C);
            pb.buf.push(0x3F);
            pb.buf.push(0x5C);
            pb.buf.push(0);
        }
        proof {
            assert(pb.text() =~= (if needs_prefix { long_prefix() } else { Seq::<u16>::empty() }));
        }
        let ghost t0 = pb.text();
        pb.push_normalized(s);
        proof {
            let enc = utf16_encode(slashes_to_backslashes(s@));
            if needs_prefix {
                assert(long_prefix().last() == BACKSLASH);
                assert(pb.text() == long_prefix() + enc);
            } else {
                assert(t0 + enc =~= enc);
                assert(pb.text() == enc);
            }
            assert(needs_prefix == (s.len() > 240 && s@.contains(':')
                    && !(4 <= s@.len() && s@.take(4) == long_prefix_chars())));
        }
        pb
    }

    /// Appends a path component (see `push_normalized`).
    pub fn push(&mut self, s: &str)
        requires
            old(self).wf(),
        ensures
            final(self).wf(),
            final(self).text() == joined(old(self).text(), utf16_encode(slashes_to_backslashes(s@))),
            final(self)@.len() > 0,
    {
        self.push_normalized(s);
    }

    /// Appends `s` with `/` turned into `\`, after a `\` separator when the
    /// buffer holds text that does not end in one.
    fn push_normalized(&mut self, s: &str)
        requires
            old(self).wf(),
        ensures
            final(self).wf(),
            final(self).text() == joined(old(self).text(), utf16_encode(slashes_to_backslashes(s@))),
            final(self)@.len() > 0,
    {
        let ghost t0 = self.text();
        if self.buf.len() > 0 {
            self.pop_null();
            if self.buf.len() > 0 && self.buf[self.buf.len() - 1] != 0x5C {
                self.buf.push(0x5C);
            }
        }
        assert(self.buf@ == (if t0.len() == 0 || t0.last() == BACKSLASH { t0 } else { t0.push(BACKSLASH) }));
        let ghost start = self.buf@;
        let ghost norm = slashes_to_backslashes(s@);
        for c in it: s.chars()
            invariant
                it.seq() == s@,
                norm == slashes_to_backslashes(s@),
                self.buf@ == start + utf16_encode(norm.take(it.index() as int)),
        {
            let ghost i = it.index() as int;
            let d = if c == '/' { '\\' } else { c };
            proof {
                lemma_encode_push(norm.take(i), norm[i]);
                assert(norm.take(i + 1) =~= norm.take(i).push(norm[i]));
            }
            push_char_units(&mut self.buf, d);
        }
        proof {
            assert(norm.take(s@.len() as int) =~= norm);
        }
        self.buf.push(0);
        assert(self.text() =~= joined(t0, utf16_encode(norm)));
    }

    /// Appends raw UTF-16 units (such as a file name from a directory listing),
    /// up to their first NUL, after a `\` separator as for `push`.
    pub fn push_u16_slice(&mut self, slice: &[u16])
        requires
            old(self).wf(),
        ensures
            final(self).wf(),
            final(self).text() == joined(old(self).text(), before_nul(slice@)),
            final(self)@.len() > 0,
    {
        let ghost t0 = self.text();
        if self.buf.len() > 0 {
            self.pop_null();
            if self.buf.len() > 0 && self.buf[self.buf.len() - 1] != 0x5C {
                self.buf.push(0x5C);
            }
        }
        let ghost start = self.buf@;
        let n = slice.len();
        let mut i: usize = 0;
        while i < n && slice[i] != 0
            invariant
                n == slice@.len(),
                0 <= i <= n,
                forall|k: int| 0 <= k < i ==> slice@[k] != 0,
                self.buf@ == start + slice@.take(i as int),
            decreases n - i,
        {
            self.buf.push(slice[i]);
            assert(slice@.take(i + 1) =~= slice@.take(i as int).push(slice@[i as int]));
            i += 1;
        }
        proof {
            lemma_before_nul(slice@, i as int);
        }
        self.buf.push(0);
        assert(self.text() =~= joined(t0, before_nul(slice@)));
    }

    /// Cuts the buffer to `len` units (nothing happens when it is not longer),
    /// then makes sure it ends with NUL.
    pub fn truncate(&mut self, len: usize)
        requires
            old(self).wf(),
        ensures
            final(self).wf(),
            final(self)@ == truncated(old(self)@, len as int),
    {
        if len >= self.buf.len() {
            return;
        }
        self.buf.truncate(len);
        if self.buf.len() == 0 || self.buf[self.buf.len() - 1] != 0 {
            self.buf.push(0);
        }
    }

    /// The units of the path followed by its terminating NUL (just the NUL
    /// for an empty path).
    pub fn as_wide(&self) -> (r: &[u16])
        requires
            self.wf(),
        ensures
            r@ == self.text().push(0u16),
            r@.len() >= 1,
    {
        self.buf.as_slice()
    }

    /// The length of the path, without the terminating NUL.
    pub fn len(&self) -> (r: usize)
        requires
            self.wf(),
        ensures
            r == self.text().len(),
            r == self.len_spec(),
    {
        if self.buf.len() == 0 {
            0
        } else {
            self.buf.len() - 1
        }
    }

    /// Whether the path is empty.
    pub fn is_empty(&self) -> (r: bool)
        requires
            self.wf(),
        ensures
            r == (self.text().len() == 0),
    {
        self.len() == 0
    }

    /// Removes a trailing NUL, if there is one.
    fn pop_null(&mut self)
        ensures
            old(self)@.len() > 0 && old(self)@.last() == 0 ==> final(self)@ == old(self)@.drop_last(),
            !(old(self)@.len() > 0 && old(self)@.last() == 0) ==> final(self)@ == old(self)@,
    {
        if self.buf.len() > 0 && self.buf[self.buf.len() - 1] == 0 {
            self.buf.pop();
        }
    }

    /// The path as a string; unpaired surrogates become U+FFFD.
    pub fn to_string_lossy(&self) -> (r: String)
        ensures
            self.wf() ==> r@ == utf16_decode_lossy(self.text()),
            self@.len() == 0 ==> r@.len() == 0,
            self@.len() > 0 && self@.last() == 0 ==> r@ == utf16_decode_lossy(self@.drop_last()),
            self@.len() > 0 && self@.last() != 0 ==> r@ == utf16_decode_lossy(self@),
    {
        if self.buf.len() == 0 {
            return String::new();
        }
        let n = self.buf.len();
        let len = if self.buf[n - 1] == 0 { n - 1 } else { n };
        let part = vstd::slice::slice_subrange(self.buf.as_slice(), 0, len);
        assert(part@ =~= (if self@.last() == 0 { self@.drop_last() } else { self@ }));
        from_utf16_lossy(part)
    }
}

/// Truncating back to the old length undoes a push: the text is again what
/// it was before (when that text did not end in a NUL unit).
pub proof fn lemma_truncate_undoes_push(before: PathBuffer, after: PathBuffer, part: Seq<u16>)
    requires
        before.wf(),
        after.wf(),
        after.text() == joined(before.text(), part),
        before.text().len() == 0 || before.text().last() != 0,
    ensures
        truncated(after@, before.text().len() as int) == before.text().push(0u16),
{
    let t0 = before.text();
    let n = t0.len() as int;
    assert(after@ =~= after.text().push(0u16));
    assert(after@.take(n) =~= t0);
}

/// Truncating a buffer whose text holds no NUL to `k` units keeps the first
/// `min(k, len)` units of the text.
pub proof fn lemma_truncate_keeps_prefix(pb: PathBuffer, k: int)
    requires
        pb.wf(),
        k >= 0,
        forall|i: int| 0 <= i < pb.text().len() ==> pb.text()[i] != 0,
    ensures
        ({
            let m = if k < pb.text().len() { k } else { pb.text().len() as int };
            truncated(pb@, k) == pb.text().take(m).push(0u16)
        }),
{
    let t = pb.text();
    assert(pb@ =~= t.push(0u16));
    if k >= pb@.len() {
        assert(t.take(t.len() as int) =~= t);
    } else {
        assert(pb@.take(k) =~= t.take(k));
        if k > 0 {
            assert(t.take(k).last() == t[k - 1]);
        }
    }
}

/// The path read back as a string encodes to exactly as many UTF-16 units as
/// the path has.
pub proof fn lemma_lossy_keeps_length(pb: PathBuffer)
    requires
        pb.wf(),
    ensures
        utf16_encode(utf16_decode_lossy(pb.text())).len() == pb.len_spec(),
{
    lemma_decode_keeps_length(pb.text());
}

/// A path that is the encoding of some text reads back as that text, and
/// that text re-encoded with its NUL gives exactly the units of the buffer.
pub proof fn lemma_lossy_round_trip(pb: PathBuffer, s: Seq<char>)
    requires
        pb.wf(),
        pb.text() == utf16_encode(s),
    ensures
        utf16_decode_lossy(pb.text()) == s,
        wz(utf16_decode_lossy(pb.text())) == pb.text().push(0u16),
{
    lemma_decode_encode(s);
}

/// Appending to a path that is the encoding of some text gives a path that
/// is again the encoding of some text.
pub proof fn lemma_push_keeps_encoding(a: Seq<char>, b: Seq<char>)
    ensures
        exists|c: Seq<char>| joined(utf16_encode(a), utf16_encode(b)) == #[trigger] utf16_encode(c),
{
    let e = utf16_encode(a);
    if e.len() == 0 || e.last() == BACKSLASH {
        lemma_encode_append(a, b);
        assert(joined(e, utf16_encode(b)) == utf16_encode(a + b));
    } else {
        lemma_encode_push(a, '\\');
        assert(utf16_of_char('\\') =~= seq![BACKSLASH]);
        lemma_encode_append(a.push('\\'), b);
        assert(joined(e, utf16_encode(b)) =~= utf16_encode(a.push('\\') + b));
    }
}

pub(crate) proof fn lemma_before_nul(s: Seq<u16>, i: int)
    requires
        0 <= i <= s.len(),
        forall|k: int| 0 <= k < i ==> s[k] != 0,
        i == s.len() || s[i] == 0,
    ensures
        before_nul(s) == s.take(i),
    decreases s.len(),
{
    if s.len() > 0 {
        if i == 0 {
            assert(s.take(0) =~= Seq::<u16>::empty());
        } else {
            lemma_before_nul(s.drop_first(), i - 1);
            assert(seq![s[0]] + s.drop_first().take(i - 1) =~= s.take(i));
        }
    }
}

/// Reading back a buffer built from a string gives the string with `/` turned into `\`
/// (when no long-path prefix was added).
pub proof fn lemma_from_reads_back(pb: PathBuffer, s: Seq<char>)
    requires
        pb.wf(),
        pb@.len() > 0,
        pb.text() == utf16_encode(slashes_to_backslashes(s)),
    ensures
        utf16_decode_lossy(pb.text()) == slashes_to_backslashes(s),
{
    lemma_decode_encode(slashes_to_backslashes(s));
}

} // verus!
