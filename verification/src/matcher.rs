//! Simple wildcard matcher used by the search box.
//!
//! `?` matches any single character and `*` any sequence of characters
//! (including the empty one). A leading `^` anchors the match to the start of
//! the text and a trailing `$` to its end; since a pattern must match the
//! whole text anyway, both anchors change nothing. Every other character
//! matches only itself.
use vstd::prelude::*;
use vstd::slice::slice_subrange;

verus! {

/// Whether `p` matches the whole of `t`.
pub open spec fn glob_match(p: Seq<char>, t: Seq<char>) -> bool
    decreases p.len() + t.len(),
{
    if p.len() == 0 {
        t.len() == 0
    } else if p[0] == '*' {
        glob_match(p.drop_first(), t) || (t.len() > 0 && glob_match(p, t.drop_first()))
    } else if t.len() == 0 {
        false
    } else if p[0] == '?' || p[0] == t[0] {
        glob_match(p.drop_first(), t.drop_first())
    } else {
        false
    }
}

/// The pattern without a leading `^` anchor.
pub open spec fn strip_start_anchor(p: Seq<char>) -> Seq<char> {
    if p.len() > 0 && p[0] == '^' {
        p.drop_first()
    } else {
        p
    }
}

/// The pattern without a trailing `$` anchor.
pub open spec fn strip_end_anchor(p: Seq<char>) -> Seq<char> {
    if p.len() > 0 && p.last() == '$' {
        p.drop_last()
    } else {
        p
    }
}

/// Whether `pattern` matches the whole of `t`, its anchors taken off first.
pub open spec fn pattern_match(pattern: Seq<char>, t: Seq<char>) -> bool {
    glob_match(strip_end_anchor(strip_start_anchor(pattern)), t)
}

/// Anchoring a pattern at both ends changes nothing: `^q$` matches exactly
/// the texts that `q` matches as a plain pattern.
pub proof fn lemma_anchors_change_nothing(q: Seq<char>, t: Seq<char>)
    ensures
        pattern_match(seq!['^'] + q + seq!['$'], t) == glob_match(q, t),
{
    let p = seq!['^'] + q + seq!['$'];
    assert(strip_start_anchor(p) =~= q + seq!['$']);
    assert(strip_end_anchor(q + seq!['$']) =~= q);
}

/// Whether `q` matches some suffix of `t`.
pub open spec fn matches_some_suffix(q: Seq<char>, t: Seq<char>) -> bool {
    exists|i: int| 0 <= i <= t.len() && #[trigger] glob_match(q, t.skip(i))
}

pub open spec fn has_wildcard(p: Seq<char>) -> bool {
    exists|i: int| 0 <= i < p.len() && (p[i] == '*' || p[i] == '?')
}

/// A leading `*` lets the rest of the pattern match any suffix of the text.
proof fn lemma_star(q: Seq<char>, t: Seq<char>)
    ensures
        glob_match(seq!['*'] + q, t) == matches_some_suffix(q, t),
    decreases t.len(),
{
    let p = seq!['*'] + q;
    assert(p.drop_first() =~= q);
    assert(t.skip(0) =~= t);
    if t.len() == 0 {
        if glob_match(p, t) {
            assert(glob_match(q, t.skip(0)));
        }
        if matches_some_suffix(q, t) {
            let i = choose|i: int| 0 <= i <= t.len() && #[trigger] glob_match(q, t.skip(i));
            assert(i == 0);
        }
    } else {
        lemma_star(q, t.drop_first());
        if glob_match(p, t) {
            if glob_match(q, t) {
                assert(glob_match(q, t.skip(0)));
            } else {
                assert(glob_match(p, t.drop_first()));
                let i = choose|i: int|
                    0 <= i <= t.drop_first().len() && #[trigger] glob_match(q, t.drop_first().skip(i));
                assert(t.drop_first().skip(i) =~= t.skip(i + 1));
                assert(glob_match(q, t.skip(i + 1)));
            }
        }
        if matches_some_suffix(q, t) {
            let i = choose|i: int| 0 <= i <= t.len() && #[trigger] glob_match(q, t.skip(i));
            if i > 0 {
                assert(t.drop_first().skip(i - 1) =~= t.skip(i));
                assert(glob_match(q, t.drop_first().skip(i - 1)));
                assert(matches_some_suffix(q, t.drop_first()));
            }
        }
    }
}

/// A run of `k >= 1` leading stars behaves like a single one.
proof fn lemma_stars(p: Seq<char>, k: int, t: Seq<char>)
    requires
        1 <= k <= p.len(),
        forall|j: int| 0 <= j < k ==> p[j] == '*',
    ensures
        glob_match(p, t) == matches_some_suffix(p.skip(k), t),
    decreases k,
{
    assert(p =~= seq!['*'] + p.drop_first());
    lemma_star(p.drop_first(), t);
    if k > 1 {
        let r = p.drop_first();
        assert(r.skip(k - 1) =~= p.skip(k));
        assert forall|i: int| 0 <= i <= t.len() implies #[trigger] glob_match(r, t.skip(i))
            == matches_some_suffix(p.skip(k), t.skip(i)) by {
            lemma_stars(r, k - 1, t.skip(i));
        }
        if matches_some_suffix(r, t) {
            let i = choose|i: int| 0 <= i <= t.len() && #[trigger] glob_match(r, t.skip(i));
            let j = choose|j: int|
                0 <= j <= t.skip(i).len() && #[trigger] glob_match(p.skip(k), t.skip(i).skip(j));
            assert(t.skip(i).skip(j) =~= t.skip(i + j));
            assert(glob_match(p.skip(k), t.skip(i + j)));
        }
        if matches_some_suffix(p.skip(k), t) {
            let m = choose|m: int| 0 <= m <= t.len() && #[trigger] glob_match(p.skip(k), t.skip(m));
            assert(t.skip(m).skip(0) =~= t.skip(m));
            assert(glob_match(p.skip(k), t.skip(m).skip(0)));
            assert(matches_some_suffix(p.skip(k), t.skip(m)));
            assert(glob_match(r, t.skip(m)));
        }
    }
}

/// A pattern without wildcards matches exactly the text equal to it.
pub proof fn lemma_literal_pattern(p: Seq<char>, t: Seq<char>)
    requires
        !has_wildcard(p),
    ensures
        glob_match(p, t) <==> p == t,
    decreases p.len() + t.len(),
{
    if p.len() > 0 && t.len() > 0 {
        assert(!has_wildcard(p.drop_first())) by {
            if has_wildcard(p.drop_first()) {
                let i = choose|i: int|
                    0 <= i < p.drop_first().len() && (p.drop_first()[i] == '*' || p.drop_first()[i] == '?');
                assert(p[i + 1] == '*' || p[i + 1] == '?');
            }
        }
        assert(p[0] != '*' && p[0] != '?');
        lemma_literal_pattern(p.drop_first(), t.drop_first());
        if p == t {
            assert(p.drop_first() == t.drop_first());
        }
        if p[0] == t[0] && p.drop_first() == t.drop_first() {
            assert(p.len() == t.len());
            assert forall|i: int| 0 <= i < p.len() implies p[i] == t[i] by {
                if i > 0 {
                    assert(p[i] == p.drop_first()[i - 1]);
                    assert(t[i] == t.drop_first()[i - 1]);
                }
            }
            assert(p =~= t);
        }
    } else if p.len() > 0 {
        assert(p[0] != '*') by {
            if p[0] == '*' {
                assert(p[0] == '*' || p[0] == '?');
            }
        }
    } else {
        if t.len() == 0 {
            assert(p =~= t);
        }
    }
}

/// A lone `*` matches every text.
pub proof fn lemma_star_matches_all(t: Seq<char>)
    ensures
        glob_match(seq!['*'], t),
{
    lemma_star(Seq::empty(), t);
    assert(seq!['*'] + Seq::<char>::empty() =~= seq!['*']);
    assert(t.skip(t.len() as int).len() == 0);
    assert(glob_match(Seq::<char>::empty(), t.skip(t.len() as int)));
}

/// Every text, read as a pattern, matches itself.
pub proof fn lemma_matches_itself(t: Seq<char>)
    ensures
        glob_match(t, t),
    decreases t.len(),
{
    if t.len() > 0 {
        lemma_matches_itself(t.drop_first());
        if t[0] == '*' {
            lemma_star(t.drop_first(), t);
            assert(t =~= seq!['*'] + t.drop_first());
            assert(t.skip(1) =~= t.drop_first());
            assert(glob_match(t.drop_first(), t.skip(1)));
        }
    }
}

fn match_slice(p: &[char], t: &[char]) -> (r: bool)
    ensures
        r == glob_match(p@, t@),
    decreases p@.len(),
{
    if p.len() == 0 {
        return t.len() == 0;
    }
    if p[0] == '*' {
        let mut next_p: usize = 1;
        while next_p < p.len() && p[next_p] == '*'
            invariant
                1 <= next_p <= p@.len(),
                forall|j: int| 0 <= j < next_p ==> p@[j] == '*',
            decreases p@.len() - next_p,
        {
            next_p += 1;
        }
        proof {
            lemma_stars(p@, next_p as int, t@);
        }
        if next_p == p.len() {
            proof {
                assert(p@.skip(next_p as int).len() == 0);
                assert(t@.skip(t@.len() as int).len() == 0);
                assert(glob_match(p@.skip(next_p as int), t@.skip(t@.len() as int)));
            }
            return true;
        }
        let q = slice_subrange(p, next_p, p.len());
        assert(q@ =~= p@.skip(next_p as int));
        let n = t.len();
        let mut i: usize = 0;
        while i < n
            invariant
                n == t@.len(),
                0 <= i <= n,
                q@ == p@.skip(next_p as int),
                q@.len() < p@.len(),
                glob_match(p@, t@) == matches_some_suffix(p@.skip(next_p as int), t@),
                forall|j: int| 0 <= j < i ==> !#[trigger] glob_match(q@, t@.skip(j)),
            decreases n - i,
        {
            let rest = slice_subrange(t, i, n);
            assert(rest@ =~= t@.skip(i as int));
            if match_slice(q, rest) {
                return true;
            }
            i += 1;
        }
        let rest = slice_subrange(t, n, n);
        assert(rest@ =~= t@.skip(n as int));
        let last = match_slice(q, rest);
        proof {
            if !last {
                assert forall|j: int| 0 <= j <= t@.len() implies !#[trigger] glob_match(q@, t@.skip(j)) by {
                    if j == n as int {
                    }
                }
            }
        }
        return last;
    }
    if t.len() == 0 {
        return false;
    }
    // '?' matches any character; every other character, '^' included, only itself.
    if p[0] == '?' || p[0] == t[0] {
        let p1 = slice_subrange(p, 1, p.len());
        let t1 = slice_subrange(t, 1, t.len());
        assert(p1@ =~= p@.drop_first());
        assert(t1@ =~= t@.drop_first());
        match_slice(p1, t1)
    } else {
        false
    }
}

fn collect_chars(s: &str) -> (r: Vec<char>)
    ensures
        r@ == s@,
{
    let mut out: Vec<char> = Vec::new();
    for c in it: s.chars()
        invariant
            it.seq() == s@,
            out@ == it.seq().take(it.index() as int),
    {
        out.push(c);
    }
    out
}

/// Whether `pattern` matches the whole of `text`; a leading `^` and a
/// trailing `$` are anchors.
pub fn is_match(pattern: &str, text: &str) -> (r: bool)
    ensures
        r == pattern_match(pattern@, text@),
{
    let p = collect_chars(pattern);
    let t = collect_chars(text);
    let mut start: usize = 0;
    let mut end: usize = p.len();
    if end > 0 && p[0] == '^' {
        start = 1;
    }
    if end > start && p[end - 1] == '$' {
        end = end - 1;
    }
    let body = slice_subrange(p.as_slice(), start, end);
    proof {
        let s1 = strip_start_anchor(p@);
        assert(s1 =~= p@.subrange(start as int, p@.len() as int));
        if s1.len() > 0 && s1.last() == '$' {
            assert(strip_end_anchor(s1) =~= p@.subrange(start as int, end as int));
        } else {
            assert(strip_end_anchor(s1) =~= p@.subrange(start as int, end as int));
        }
    }
    match_slice(body, t.as_slice())
}

} // verus!
