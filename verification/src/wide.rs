//! Null-terminated UTF-16 ("wide") strings: encoding, decoding and the
//! small number formatters the user interface builds its texts from.
use vstd::prelude::*;

verus! {

// ---------------------------------------------------------------------------
// Model
// ---------------------------------------------------------------------------

/// The UTF-16 code units of one Unicode scalar value.
pub open spec fn utf16_of_char(c: char) -> Seq<u16> {
    let v = c as u32;
    if v < 0x10000 {
        seq![v as u16]
    } else {
        let u = (v - 0x10000) as int;
        seq![(0xD800 + u / 0x400) as u16, (0xDC00 + u % 0x400) as u16]
    }
}

/// UTF-16 encoding of a character sequence.
pub open spec fn utf16_encode(s: Seq<char>) -> Seq<u16>
    decreases s.len(),
{
    if s.len() == 0 {
        Seq::empty()
    } else {
        utf16_of_char(s[0]) + utf16_encode(s.drop_first())
    }
}

/// UTF-16 encoding followed by the terminating NUL unit.
pub open spec fn wz(s: Seq<char>) -> Seq<u16> {
    utf16_encode(s).push(0u16)
}

pub open spec fn is_high_surrogate(u: u16) -> bool {
    0xD800 <= u < 0xDC00
}

pub open spec fn is_low_surrogate(u: u16) -> bool {
    0xDC00 <= u < 0xE000
}

/// The scalar value that a surrogate pair stands for.
pub open spec fn pair_scalar(hi: u16, lo: u16) -> int {
    0x10000 + (hi - 0xD800) * 0x400 + (lo - 0xDC00)
}

/// The replacement character that lossy decoding puts in place of a lone surrogate.
pub open spec fn replacement_char() -> char {
    '\u{FFFD}'
}

/// Lossy UTF-16 decoding: a well-formed surrogate pair gives its scalar value,
/// a lone surrogate gives U+FFFD, any other unit gives itself.
pub open spec fn utf16_decode_lossy(s: Seq<u16>) -> Seq<char>
    decreases s.len(),
{
    if s.len() == 0 {
        Seq::empty()
    } else if s.len() >= 2 && is_high_surrogate(s[0]) && is_low_surrogate(s[1]) {
        seq![(pair_scalar(s[0], s[1]) as u32) as char] + utf16_decode_lossy(s.subrange(2, s.len() as int))
    } else if 0xD800 <= s[0] < 0xE000 {
        seq![replacement_char()] + utf16_decode_lossy(s.drop_first())
    } else {
        seq![(s[0] as u32) as char] + utf16_decode_lossy(s.drop_first())
    }
}

/// The decimal digits of a number, as UTF-16 code units, most significant first.
pub open spec fn decimal(v: nat) -> Seq<u16>
    decreases v,
{
    if v < 10 {
        seq![(0x30 + v) as u16]
    } else {
        decimal(v / 10).push((0x30 + v % 10) as u16)
    }
}

/// Decimal digits padded with a leading zero to at least two digits (`%02u`).
pub open spec fn decimal2(v: nat) -> Seq<u16> {
    if v < 10 {
        seq![0x30u16, (0x30 + v) as u16]
    } else {
        decimal(v)
    }
}

/// A wide string without its terminating NUL, if it has one.
pub open spec fn strip_nul(p: Seq<u16>) -> Seq<u16> {
    if p.len() > 0 && p.last() == 0u16 {
        p.drop_last()
    } else {
        p
    }
}

/// The parts, each without its terminating NUL, one after the other.
pub open spec fn concat_stripped(parts: Seq<Seq<u16>>) -> Seq<u16>
    decreases parts.len(),
{
    if parts.len() == 0 {
        Seq::empty()
    } else {
        concat_stripped(parts.drop_last()) + strip_nul(parts.last())
    }
}

// ---------------------------------------------------------------------------
// Lemmas
// ---------------------------------------------------------------------------

pub proof fn lemma_encode_append(a: Seq<char>, b: Seq<char>)
    ensures
        utf16_encode(a + b) == utf16_encode(a) + utf16_encode(b),
    decreases a.len(),
{
    if a.len() == 0 {
        assert(a + b =~= b);
    } else {
        assert((a + b).drop_first() =~= a.drop_first() + b);
        lemma_encode_append(a.drop_first(), b);
    }
}

pub proof fn lemma_encode_push(a: Seq<char>, c: char)
    ensures
        utf16_encode(a.push(c)) == utf16_encode(a) + utf16_of_char(c),
{
    lemma_encode_append(a, seq![c]);
    assert(a + seq![c] =~= a.push(c));
    assert(seq![c].drop_first() =~= Seq::<char>::empty());
    assert(utf16_encode(Seq::<char>::empty()) =~= Seq::<u16>::empty());
    assert(utf16_encode(seq![c]) == utf16_of_char(seq![c][0]) + utf16_encode(seq![c].drop_first()));
    assert(utf16_encode(seq![c]) =~= utf16_of_char(c));
}

proof fn lemma_char_unit(c: char)
    ensures
        (c as u32) as char == c,
        (c as u32) < 0x10000 ==> (((c as u32) as u16) as u32) as char == c,
        (c as u32) < 0x10000 ==> !(0xD800 <= ((c as u32) as u16) < 0xE000),
        (c as u32) <= 0x10FFFF,
{
    vstd::utf8::char_u32_cast(c, c as u32);
    vstd::utf8::char_is_scalar(c);
}

proof fn lemma_of_char_decodes(c: char, rest: Seq<u16>)
    ensures
        utf16_decode_lossy(utf16_of_char(c) + rest) == seq![c] + utf16_decode_lossy(rest),
{
    let s = utf16_of_char(c) + rest;
    let v = c as u32;
    lemma_char_unit(c);
    if v < 0x10000 {
        assert(s.drop_first() =~= rest);
        assert(s[0] == v as u16);
    } else {
        let u = (v - 0x10000) as int;
        assert(0 <= u < 0x100000);
        assert(u == (u / 0x400) * 0x400 + u % 0x400);
        assert(s.subrange(2, s.len() as int) =~= rest);
        assert(is_high_surrogate(s[0]));
        assert(is_low_surrogate(s[1]));
        assert(pair_scalar(s[0], s[1]) == v);
    }
}

proof fn lemma_decoded_char_width(v: u32)
    requires
        v <= 0x10FFFF,
        !(0xD800 <= v < 0xE000),
    ensures
        utf16_of_char(v as char).len() == if v < 0x10000 { 1int } else { 2int },
{
}

/// Lossy decoding turns each surrogate pair into one character that encodes
/// back to two units and every other unit into one that encodes back to one,
/// so encoding the result gives as many units as were decoded.
pub proof fn lemma_decode_keeps_length(s: Seq<u16>)
    ensures
        utf16_encode(utf16_decode_lossy(s)).len() == s.len(),
    decreases s.len(),
{
    if s.len() > 0 {
        let d = utf16_decode_lossy(s);
        if s.len() >= 2 && is_high_surrogate(s[0]) && is_low_surrogate(s[1]) {
            let rest = s.subrange(2, s.len() as int);
            lemma_decode_keeps_length(rest);
            let v = pair_scalar(s[0], s[1]);
            assert(0x10000 <= v <= 0x10FFFF);
            lemma_decoded_char_width(v as u32);
            assert(d.drop_first() =~= utf16_decode_lossy(rest));
        } else if 0xD800 <= s[0] < 0xE000 {
            lemma_decode_keeps_length(s.drop_first());
            lemma_decoded_char_width(0xFFFD);
            assert(d.drop_first() =~= utf16_decode_lossy(s.drop_first()));
        } else {
            lemma_decode_keeps_length(s.drop_first());
            lemma_decoded_char_width(s[0] as u32);
            assert(d.drop_first() =~= utf16_decode_lossy(s.drop_first()));
        }
    }
}

/// Decoding what was encoded gives back the original characters.
pub proof fn lemma_decode_encode(s: Seq<char>)
    ensures
        utf16_decode_lossy(utf16_encode(s)) == s,
    decreases s.len(),
{
    if s.len() > 0 {
        lemma_decode_encode(s.drop_first());
        lemma_of_char_decodes(s[0], utf16_encode(s.drop_first()));
        assert(seq![s[0]] + s.drop_first() =~= s);
    }
}

pub proof fn lemma_encode_no_nul(s: Seq<char>)
    requires
        forall|i: int| 0 <= i < s.len() ==> s[i] != '\0',
    ensures
        forall|i: int| 0 <= i < utf16_encode(s).len() ==> utf16_encode(s)[i] != 0u16,
    decreases s.len(),
{
    if s.len() > 0 {
        lemma_encode_no_nul(s.drop_first());
        lemma_char_unit(s[0]);
        let e = utf16_encode(s);
        let h = utf16_of_char(s[0]);
        assert forall|i: int| 0 <= i < e.len() implies e[i] != 0u16 by {
            if i >= h.len() {
                assert(e[i] == utf16_encode(s.drop_first())[i - h.len()]);
            }
        }
    }
}

// ---------------------------------------------------------------------------
// Trusted std calls
// ---------------------------------------------------------------------------

/// Calls `char::from_u32`; claims, as its documentation says, that it gives
/// `Some` exactly for Unicode scalar values, holding that value.
#[verifier::external_body]
fn char_from_u32(v: u32) -> (r: Option<char>)
    ensures
        r is Some <==> (v <= 0x10FFFF && !(0xD800 <= v < 0xE000)),
        r matches Some(c) ==> c as u32 == v,
{
    char::from_u32(v)
}

/// Calls `String::push`; claims that the string afterwards is the old one
/// with the character appended.
#[verifier::external_body]
pub(crate) fn string_push(s: &mut String, c: char)
    ensures
        final(s)@ == old(s)@.push(c),
{
    s.push(c)
}

/// The decimal digits of a number as characters.
pub open spec fn decimal_chars(v: nat) -> Seq<char>
    decreases v,
{
    if v < 10 {
        seq![((0x30 + v) as u8) as char]
    } else {
        decimal_chars(v / 10).push(((0x30 + v % 10) as u8) as char)
    }
}

/// Appends the decimal digits of `v` to a string.
pub fn push_decimal_chars(out: &mut String, v: u64)
    ensures
        final(out)@ == old(out)@ + decimal_chars(v as nat),
    decreases v,
{
    if v >= 10 {
        push_decimal_chars(out, v / 10);
    }
    let d = (0x30 + v % 10) as u8;
    string_push(out, d as char);
    assert(out@ =~= old(out)@ + decimal_chars(v as nat));
}

// ---------------------------------------------------------------------------
// Executable functions
// ---------------------------------------------------------------------------

/// Appends the UTF-16 units of `c` to `out`.
pub fn push_char_units(out: &mut Vec<u16>, c: char)
    ensures
        final(out)@ == old(out)@ + utf16_of_char(c),
{
    let v = c as u32;
    proof { lemma_char_unit(c); }
    if v < 0x10000 {
        out.push(v as u16);
        assert(out@ =~= old(out)@ + utf16_of_char(c));
    } else {
        let u = v - 0x10000;
        out.push((0xD800 + u / 0x400) as u16);
        out.push((0xDC00 + u % 0x400) as u16);
        assert(out@ =~= old(out)@ + utf16_of_char(c));
    }
}

/// Appends the UTF-16 encoding of `s` (without NUL) to `out`.
pub fn push_str_units(out: &mut Vec<u16>, s: &str)
    ensures
        final(out)@ == old(out)@ + utf16_encode(s@),
{
    let ghost start = out@;
    for c in it: s.chars()
        invariant
            it.seq() == s@,
            out@ == start + utf16_encode(s@.take(it.index() as int)),
    {
        proof {
            let i = it.index() as int;
            lemma_encode_push(s@.take(i), s@[i]);
            assert(s@.take(i + 1) =~= s@.take(i).push(s@[i]));
        }
        push_char_units(out, c);
    }
    proof {
        assert(s@.take(s@.len() as int) =~= s@);
    }
}

/// Converts a string to a null-terminated UTF-16 vector.
pub fn to_wstring(value: &str) -> (r: Vec<u16>)
    ensures
        r@ == wz(value@),
{
    let mut out: Vec<u16> = Vec::new();
    push_str_units(&mut out, value);
    out.push(0);
    out
}

/// Appends the decimal digits of `v` to `out`.
pub fn push_decimal(out: &mut Vec<u16>, v: u64)
    ensures
        final(out)@ == old(out)@ + decimal(v as nat),
    decreases v,
{
    if v >= 10 {
        push_decimal(out, v / 10);
    }
    out.push((0x30 + v % 10) as u16);
    assert(out@ =~= old(out)@ + decimal(v as nat));
}

/// Converts a number to its null-terminated decimal representation.
pub fn u64_to_wstring(val: u64) -> (r: Vec<u16>)
    ensures
        r@ == decimal(val as nat).push(0u16),
{
    let mut out: Vec<u16> = Vec::new();
    push_decimal(&mut out, val);
    out.push(0);
    out
}

/// `%u`: the decimal representation of `value`, null-terminated.
pub fn fmt_u32(value: u32) -> (r: Vec<u16>)
    ensures
        r@ == decimal(value as nat).push(0u16),
{
    u64_to_wstring(value as u64)
}

pub(crate) fn push_decimal2(out: &mut Vec<u16>, v: u64)
    ensures
        final(out)@ == old(out)@ + decimal2(v as nat),
{
    if v < 10 {
        out.push(0x30);
        out.push((0x30 + v) as u16);
        assert(out@ =~= old(out)@ + decimal2(v as nat));
    } else {
        push_decimal(out, v);
    }
}


/// Appends the UTF-16 units of the characters.
pub fn push_chars_units(out: &mut Vec<u16>, cs: &Vec<char>)
    ensures
        final(out)@ == old(out)@ + utf16_encode(cs@),
{
    let ghost start = out@;
    let mut i: usize = 0;
    assert(cs@.take(0) =~= Seq::<char>::empty());
    while i < cs.len()
        invariant
            0 <= i <= cs@.len(),
            out@ == start + utf16_encode(cs@.take(i as int)),
        decreases cs@.len() - i,
    {
        proof {
            lemma_encode_push(cs@.take(i as int), cs@[i as int]);
            assert(cs@.take(i + 1) =~= cs@.take(i as int).push(cs@[i as int]));
        }
        push_char_units(out, cs[i]);
        i += 1;
    }
    assert(cs@.take(cs@.len() as int) =~= cs@);
}

/// Appends the characters of `s`.
pub fn push_str_chars(out: &mut Vec<char>, s: &str)
    ensures
        final(out)@ == old(out)@ + s@,
{
    let ghost start = out@;
    for c in it: s.chars()
        invariant
            it.seq() == s@,
            out@ == start + s@.take(it.index() as int),
    {
        proof {
            assert(s@.take(it.index() + 1) =~= s@.take(it.index() as int).push(c));
        }
        out.push(c);
    }
    assert(s@.take(s@.len() as int) =~= s@);
}

/// `%02u`: the decimal representation of `value` with at least two digits, null-terminated.
pub fn fmt_u32_padded(value: u32) -> (r: Vec<u16>)
    ensures
        r@ == decimal2(value as nat).push(0u16),
{
    let mut out: Vec<u16> = Vec::new();
    push_decimal2(&mut out, value as u64);
    out.push(0);
    out
}

/// "Processed current / total", null-terminated.
pub fn fmt_progress(current: u64, total: u64) -> (r: Vec<u16>)
    ensures
        r@ == (utf16_encode("Processed "@) + decimal(current as nat) + utf16_encode(" / "@)
            + decimal(total as nat)).push(0u16),
{
    let mut out: Vec<u16> = Vec::new();
    push_str_units(&mut out, "Processed ");
    push_decimal(&mut out, current);
    push_str_units(&mut out, " / ");
    push_decimal(&mut out, total);
    out.push(0);
    out
}

/// The hours, minutes and seconds of the day that a timestamp falls on.
pub open spec fn clock_of(ts: u64) -> (nat, nat, nat) {
    let s = ts % 86400;
    ((s / 3600) as nat, ((s % 3600) / 60) as nat, (s % 60) as nat)
}

/// "[HH:MM:SS]" for the time of day of a timestamp, null-terminated.
pub fn fmt_timestamp(ts: u64) -> (r: Vec<u16>)
    ensures
        ({
            let (h, m, s) = clock_of(ts);
            r@ == (utf16_encode("["@) + decimal2(h) + utf16_encode(":"@) + decimal2(m)
                + utf16_encode(":"@) + decimal2(s) + utf16_encode("]"@)).push(0u16)
        }),
{
    let s = ts % 86400;
    let h = s / 3600;
    let m = (s % 3600) / 60;
    let sec = s % 60;
    let mut out: Vec<u16> = Vec::new();
    push_str_units(&mut out, "[");
    push_decimal2(&mut out, h);
    push_str_units(&mut out, ":");
    push_decimal2(&mut out, m);
    push_str_units(&mut out, ":");
    push_decimal2(&mut out, sec);
    push_str_units(&mut out, "]");
    out.push(0);
    out
}

/// Concatenates wide strings, dropping the terminating NUL of each part,
/// into one null-terminated vector.
pub fn concat_wstrings(parts: &[&[u16]]) -> (r: Vec<u16>)
    ensures
        r@ == concat_stripped(parts@.map_values(|p: &[u16]| p@)).push(0u16),
{
    let ghost views = parts@.map_values(|p: &[u16]| p@);
    let mut res: Vec<u16> = Vec::new();
    let n = parts.len();
    let mut i: usize = 0;
    while i < n
        invariant
            n == parts@.len(),
            views == parts@.map_values(|p: &[u16]| p@),
            0 <= i <= n,
            res@ == concat_stripped(views.take(i as int)),
        decreases n - i,
    {
        let part: &[u16] = parts[i];
        let plen = part.len();
        let len = if plen > 0 && part[plen - 1] == 0 { plen - 1 } else { plen };
        let ghost before = res@;
        let mut j: usize = 0;
        while j < len
            invariant
                len <= plen == part@.len(),
                0 <= j <= len,
                res@ == before + part@.take(j as int),
            decreases len - j,
        {
            res.push(part[j]);
            assert(part@.take(j as int + 1) =~= part@.take(j as int).push(part@[j as int]));
            j += 1;
        }
        proof {
            assert(views[i as int] == part@);
            assert(views.take(i as int + 1).drop_last() =~= views.take(i as int));
            assert(part@.take(len as int) =~= strip_nul(part@));
        }
        i += 1;
    }
    proof {
        assert(views.take(n as int) =~= views);
    }
    res.push(0);
    res
}

/// The saving of a compressed size against its logical size, in tenths of a percent.
pub open spec fn saved_per_mille(logical: nat, disk: nat) -> nat {
    if logical > disk {
        ((logical - disk) * 1000 / (logical as int)) as nat
    } else {
        0
    }
}

/// "W.D%" for the space saved (one decimal, truncated), or "-" when the logical size is zero.
pub fn calculate_ratio_string(logical: u64, disk: u64) -> (r: Vec<u16>)
    ensures
        logical == 0 ==> r@ == wz("-"@),
        logical != 0 ==> ({
            let pm = saved_per_mille(logical as nat, disk as nat);
            r@ == (decimal(pm / 10) + utf16_encode("."@) + decimal(pm % 10)
                + utf16_encode("%"@)).push(0u16)
        }),
{
    if logical == 0 {
        return to_wstring("-");
    }
    let saved: u64 = if logical > disk { logical - disk } else { 0 };
    assert(saved as int * 1000 <= logical as int * 1000) by (nonlinear_arith)
        requires saved <= logical;
    let ratio_10x: u128 = (saved as u128 * 1000) / (logical as u128);
    proof {
        assert(ratio_10x <= 1000) by (nonlinear_arith)
            requires ratio_10x == (saved as int * 1000) / (logical as int), saved <= logical, logical > 0;
    }
    let whole = (ratio_10x / 10) as u64;
    let dec = (ratio_10x % 10) as u64;
    let mut out: Vec<u16> = Vec::new();
    push_decimal(&mut out, whole);
    push_str_units(&mut out, ".");
    push_decimal(&mut out, dec);
    push_str_units(&mut out, "%");
    out.push(0);
    out
}

/// Decodes UTF-16 units into a string, putting U+FFFD in place of lone surrogates.
pub fn from_utf16_lossy(units: &[u16]) -> (r: String)
    ensures
        r@ == utf16_decode_lossy(units@),
{
    let mut out = String::new();
    let n = units.len();
    let mut i: usize = 0;
    assert(units@.subrange(0, n as int) =~= units@);
    assert(out@ + utf16_decode_lossy(units@) =~= utf16_decode_lossy(units@));
    while i < n
        invariant
            n == units@.len(),
            0 <= i <= n,
            utf16_decode_lossy(units@) == out@ + utf16_decode_lossy(units@.subrange(i as int, n as int)),
        decreases n - i,
    {
        let ghost rest = units@.subrange(i as int, n as int);
        let u = units[i];
        if i + 1 < n && 0xD800 <= u && u < 0xDC00 && 0xDC00 <= units[i + 1] && units[i + 1] < 0xE000 {
            let lo = units[i + 1];
            let v: u32 = 0x10000 + (u as u32 - 0xD800) * 0x400 + (lo as u32 - 0xDC00);
            let c = char_from_u32(v);
            proof {
                assert(rest[0] == u && rest[1] == lo);
                assert(rest.subrange(2, rest.len() as int) =~= units@.subrange(i + 2, n as int));
            }
            match c {
                Some(ch) => {
                    proof {
                        vstd::utf8::char_u32_cast(ch, v);
                        assert(utf16_decode_lossy(rest) == seq![ch] + utf16_decode_lossy(units@.subrange(i + 2, n as int)));
                    }
                    let ghost old_out = out@;
                    string_push(&mut out, ch);
                    assert(old_out + utf16_decode_lossy(rest) =~= out@ + utf16_decode_lossy(units@.subrange(i + 2, n as int)));
                },
                None => {
                    proof { assert(false); }
                },
            }
            i += 2;
        } else if 0xD800 <= u && u < 0xE000 {
            proof {
                assert(rest[0] == u);
                assert(rest.drop_first() =~= units@.subrange(i + 1, n as int));
            }
            let ghost old_out = out@;
            string_push(&mut out, '\u{FFFD}');
            assert(old_out + utf16_decode_lossy(rest) =~= out@ + utf16_decode_lossy(units@.subrange(i + 1, n as int)));
            i += 1;
        } else {
            let c = char_from_u32(u as u32);
            proof {
                assert(rest[0] == u);
                assert(rest.drop_first() =~= units@.subrange(i + 1, n as int));
            }
            match c {
                Some(ch) => {
                    proof {
                        vstd::utf8::char_u32_cast(ch, u as u32);
                        assert(utf16_decode_lossy(rest) == seq![ch] + utf16_decode_lossy(units@.subrange(i + 1, n as int)));
                    }
                    let ghost old_out = out@;
                    string_push(&mut out, ch);
                    assert(old_out + utf16_decode_lossy(rest) =~= out@ + utf16_decode_lossy(units@.subrange(i + 1, n as int)));
                },
                None => {
                    proof { assert(false); }
                },
            }
            i += 1;
        }
    }
    proof {
        assert(units@.subrange(n as int, n as int) =~= Seq::<u16>::empty());
    }
    out
}

} // verus!
