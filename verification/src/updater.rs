//! Self-update logic: reading the release feed, following redirects of the
//! download and checking what was downloaded. The HTTP and file work is done
//! by the caller, which hands the replies to these functions.
use vstd::prelude::*;
use crate::text::{collect_chars, find_from, find_from_spec, split_once, sub_chars, chars_eq,
    strip_leading, skip_leading, string_from_chars, contains_chars, contains_seq, lemma_find_from};
use crate::wide::{utf16_decode_lossy, utf16_encode, from_utf16_lossy};
use crate::window::{trim_nuls, trim_nul_range};

verus! {

/// A newer release than the running one.
#[derive(Clone, Debug)]
pub struct UpdateInfo {
    pub version: String,
    pub download_url: String,
}

/// The quote character as a one-character sequence.
pub open spec fn quote() -> Seq<char> {
    seq!['"']
}

/// `s.split(key).nth(1)?.split('"').nth(1)`: in the part of `s` between the
/// first `key` and the next one (or the end), the text after the first quote,
/// up to the next quote (or the end of that part).
pub open spec fn field_after(s: Seq<char>, key: Seq<char>) -> Option<Seq<char>> {
    match split_once(s, key) {
        None => None,
        Some((_, rest)) => {
            let seg = match split_once(rest, key) {
                Some((a, _)) => a,
                None => rest,
            };
            match split_once(seg, quote()) {
                None => None,
                Some((_, r2)) => Some(
                    match split_once(r2, quote()) {
                        Some((v, _)) => v,
                        None => r2,
                    },
                ),
            }
        },
    }
}

/// `s` with the first occurrence of `sep` (found at `i`) taken out.
proof fn lemma_split_at(s: Seq<char>, sep: Seq<char>)
    ensures
        find_from_spec(s, sep, 0) matches Some(i) ==> 0 <= i && i + sep.len() <= s.len(),
{
    lemma_find_from(s, sep, 0);
}

/// The part of `s` after the first `sep`, and the part before it, as positions.
fn cut_once(s: &Vec<char>, sep: &Vec<char>) -> (r: Option<(Vec<char>, Vec<char>)>)
    ensures
        match split_once(s@, sep@) {
            None => r is None,
            Some((a, b)) => r matches Some((ra, rb)) && ra@ == a && rb@ == b,
        },
{
    match find_from(s, sep, 0) {
        None => None,
        Some(i) => {
            proof {
                lemma_split_at(s@, sep@);
            }
            assert(i + sep@.len() <= s@.len());
            assert(s@.len() == s.len() && sep@.len() == sep.len());
            let before = sub_chars(s, 0, i);
            let after = sub_chars(s, i + sep.len(), s.len());
            assert(before@ =~= s@.take(i as int));
            assert(after@ =~= s@.skip(i + sep@.len()));
            Some((before, after))
        },
    }
}

/// The field value that follows `key` (see `field_after`).
fn val(s: &Vec<char>, key: &Vec<char>) -> (r: Option<Vec<char>>)
    ensures
        match field_after(s@, key@) {
            None => r is None,
            Some(v) => r matches Some(rv) && rv@ == v,
        },
{
    let q: Vec<char> = vec!['"'];
    assert(q@ =~= quote());
    let rest = match cut_once(s, key) {
        None => return None,
        Some((_, b)) => b,
    };
    let seg = match cut_once(&rest, key) {
        Some((a, _)) => a,
        None => rest,
    };
    let r2 = match cut_once(&seg, &q) {
        None => return None,
        Some((_, b)) => b,
    };
    match cut_once(&r2, &q) {
        Some((v, _)) => Some(v),
        None => Some(r2),
    }
}

/// The position of the first `{` at or after `i` (the end of `s` when there is none).
pub open spec fn next_brace(s: Seq<char>, i: int) -> int {
    match find_from_spec(s, seq!['{'], i) {
        Some(j) => j,
        None => s.len() as int,
    }
}

/// Whether a piece of the feed describes the program's own download.
pub open spec fn is_asset_piece(p: Seq<char>) -> bool {
    contains_seq(p, "compactrs.exe"@) && contains_seq(p, "browser_download_url"@)
}

/// The first of the `{`-separated pieces of `s`, from the one that starts at
/// `start` on, that describes the program's own download
/// (`s.split('{').find(..)`).
pub open spec fn asset_piece(s: Seq<char>, start: int) -> Option<Seq<char>>
    decreases s.len() + 1 - start,
{
    if start < 0 || start > s.len() {
        None
    } else {
        let end = next_brace(s, start);
        let piece = s.subrange(start, end);
        if is_asset_piece(piece) {
            Some(piece)
        } else if end >= s.len() {
            None
        } else {
            proof {
                lemma_find_from(s, seq!['{'], start);
            }
            asset_piece(s, end + 1)
        }
    }
}

/// The download address of the program in a release feed.
pub open spec fn asset_url(json: Seq<char>) -> Option<Seq<char>> {
    match asset_piece(json, 0) {
        Some(p) => field_after(p, "\"browser_download_url\""@),
        None => None,
    }
}

fn find_asset_piece(cs: &Vec<char>, exe: &Vec<char>, url_key: &Vec<char>) -> (r: Option<Vec<char>>)
    requires
        exe@ == "compactrs.exe"@,
        url_key@ == "browser_download_url"@,
    ensures
        match asset_piece(cs@, 0) {
            None => r is None,
            Some(p) => r matches Some(rp) && rp@ == p,
        },
{
    let brace: Vec<char> = vec!['{'];
    assert(brace@ =~= seq!['{']);
    let mut start: usize = 0;
    while start <= cs.len()
        invariant
            brace@ == seq!['{'],
            exe@ == "compactrs.exe"@,
            url_key@ == "browser_download_url"@,
            start <= cs@.len(),
            asset_piece(cs@, 0) == asset_piece(cs@, start as int),
        decreases cs@.len() + 1 - start,
    {
        let end = match find_from(cs, &brace, start) {
            Some(j) => j,
            None => cs.len(),
        };
        proof {
            lemma_find_from(cs@, seq!['{'], start as int);
        }
        assert(end == next_brace(cs@, start as int));
        let piece = sub_chars(cs, start, end);
        if contains_chars(&piece, exe) && contains_chars(&piece, url_key) {
            return Some(piece);
        }
        if end >= cs.len() {
            return None;
        }
        start = end + 1;
    }
    None
}

/// Reads a release feed: `API Error` when it carries a `"message"` field,
/// `No Tag` without a `"tag_name"`, `No Asset` without a download address for
/// the program; otherwise the release when its tag differs from
/// `current_version` (leading `v`s aside), and `None` when it does not.
pub fn parse_release_info(json: &str, current_version: &str) -> (r: Result<Option<UpdateInfo>, &'static str>)
    ensures
        field_after(json@, "\"message\""@) is Some ==> r == Err::<Option<UpdateInfo>, &'static str>("API Error"),
        field_after(json@, "\"message\""@) is None && field_after(json@, "\"tag_name\""@) is None
            ==> r == Err::<Option<UpdateInfo>, &'static str>("No Tag"),
        field_after(json@, "\"message\""@) is None && field_after(json@, "\"tag_name\""@) is Some
            && asset_url(json@) is None ==> r == Err::<Option<UpdateInfo>, &'static str>("No Asset"),
        field_after(json@, "\"message\""@) is None ==> match (field_after(json@, "\"tag_name\""@), asset_url(json@)) {
            (Some(ver), Some(url)) => if strip_leading(ver, 'v') != strip_leading(current_version@, 'v') {
                (r matches Ok(Some(info)) && info.version@ == ver && info.download_url@ == url)
            } else {
                r == Ok::<Option<UpdateInfo>, &'static str>(None)
            },
            _ => true,
        },
{
    let cs = collect_chars(json);
    let message_key = collect_chars("\"message\"");
    if val(&cs, &message_key).is_some() {
        return Err("API Error");
    }
    let tag_key = collect_chars("\"tag_name\"");
    let ver = match val(&cs, &tag_key) {
        Some(v) => v,
        None => return Err("No Tag"),
    };
    let exe = collect_chars("compactrs.exe");
    let url_word = collect_chars("browser_download_url");
    let url_key = collect_chars("\"browser_download_url\"");
    let url = match find_asset_piece(&cs, &exe, &url_word) {
        Some(piece) => match val(&piece, &url_key) {
            Some(u) => u,
            None => return Err("No Asset"),
        },
        None => return Err("No Asset"),
    };
    let cur = collect_chars(current_version);
    let a = skip_leading(&ver, 'v');
    let b = skip_leading(&cur, 'v');
    let ver_rest = sub_chars(&ver, a, ver.len());
    let cur_rest = sub_chars(&cur, b, cur.len());
    assert(ver_rest@ =~= ver@.skip(a as int));
    assert(cur_rest@ =~= cur@.skip(b as int));
    if chars_eq(&ver_rest, &cur_rest) {
        Ok(None)
    } else {
        let version = string_from_chars(&ver, 0, ver.len());
        let download_url = string_from_chars(&url, 0, url.len());
        assert(ver@.subrange(0, ver@.len() as int) =~= ver@);
        assert(url@.subrange(0, url@.len() as int) =~= url@);
        Ok(Some(UpdateInfo { version, download_url }))
    }
}


/// `https://` as characters.
pub open spec fn https_prefix() -> Seq<char> {
    seq!['h', 't', 't', 'p', 's', ':', '/', '/']
}

/// The host and the path of an `https://` address: the path starts at the
/// first `/` after the prefix and is `/` when there is none.
pub open spec fn url_parts(u: Seq<char>) -> Option<(Seq<char>, Seq<char>)> {
    if u.len() >= 8 && u.take(8) == https_prefix() {
        let v = u.skip(8);
        match find_from_spec(v, seq!['/'], 0) {
            Some(i) => Some((v.take(i), v.skip(i))),
            None => Some((v, seq!['/'])),
        }
    } else {
        None
    }
}

/// Splits an `https://` address into host and path (`Bad URL` for any other address).
pub fn split_url(url: &str) -> (r: Result<(String, String), &'static str>)
    ensures
        match url_parts(url@) {
            None => r == Err::<(String, String), &'static str>("Bad URL"),
            Some((h, p)) => (r matches Ok((rh, rp)) && rh@ == h && rp@ == p),
        },
{
    let cs = collect_chars(url);
    let prefix: Vec<char> = vec!['h', 't', 't', 'p', 's', ':', '/', '/'];
    assert(prefix@ =~= https_prefix());
    if cs.len() < 8 {
        return Err("Bad URL");
    }
    let head = sub_chars(&cs, 0, 8);
    assert(head@ =~= cs@.take(8));
    if !chars_eq(&head, &prefix) {
        return Err("Bad URL");
    }
    let v = sub_chars(&cs, 8, cs.len());
    assert(v@ =~= cs@.skip(8));
    let slash: Vec<char> = vec!['/'];
    assert(slash@ =~= seq!['/']);
    match find_from(&v, &slash, 0) {
        Some(i) => {
            proof {
                lemma_find_from(v@, seq!['/'], 0);
            }
            let host = string_from_chars(&v, 0, i);
            let path = string_from_chars(&v, i, v.len());
            assert(v@.subrange(0, i as int) =~= v@.take(i as int));
            assert(v@.subrange(i as int, v@.len() as int) =~= v@.skip(i as int));
            Ok((host, path))
        },
        None => {
            let host = string_from_chars(&v, 0, v.len());
            assert(v@.subrange(0, v@.len() as int) =~= v@);
            let path = string_from_chars(&slash, 0, 1);
            assert(slash@.subrange(0, 1) =~= slash@);
            Ok((host, path))
        },
    }
}

/// The address held in a buffer of UTF-16 units (a `Location` header or the
/// first address), decoded and without NULs at either end.
pub fn location_text(units: &[u16]) -> (r: String)
    ensures
        r@ == trim_nuls(utf16_decode_lossy(units@)),
{
    let text = from_utf16_lossy(units);
    let cs = collect_chars(text.as_str());
    let (a, b) = trim_nul_range(&cs);
    string_from_chars(&cs, a, b)
}

/// The contents of a buffer after `w_buf`: the UTF-16 units of `s` as far as
/// they fit, then a NUL at `min(byte length of s, buffer length - 1)`.
pub open spec fn written_buffer(old_buf: Seq<u16>, s: Seq<char>, byte_len: int) -> Seq<u16> {
    let enc = utf16_encode(s);
    let k = if byte_len < old_buf.len() - 1 { byte_len } else { old_buf.len() - 1 };
    Seq::new(old_buf.len(), |i: int| if i == k { 0u16 } else if i < enc.len() { enc[i] } else { old_buf[i] })
}

/// Writes `s` into a fixed buffer as UTF-16 and puts a NUL after it; the
/// position of the NUL is reckoned from the byte length of `s`.
pub fn w_buf(s: &str, buf: &mut [u16])
    requires
        old(buf)@.len() > 0,
    ensures
        final(buf)@ == written_buffer(old(buf)@, s@, s.len() as int),
{
    let mut enc: Vec<u16> = Vec::new();
    crate::wide::push_str_units(&mut enc, s);
    assert(enc@ =~= utf16_encode(s@));
    let n = buf.len();
    let m = enc.len();
    let mut i: usize = 0;
    while i < m
        invariant
            n == buf@.len(),
            m == enc@.len(),
            enc@ == utf16_encode(s@),
            0 <= i <= m,
            forall|j: int| 0 <= j < n ==> buf@[j] == if j < i && j < m { enc@[j] } else { old(buf)@[j] },
        decreases m - i,
    {
        if i < n {
            buf[i] = enc[i];
        }
        i += 1;
    }
    let bytes = s.len();
    let k = if bytes < n - 1 { bytes } else { n - 1 };
    buf[k] = 0;
    assert(buf@ =~= written_buffer(old(buf)@, s@, s.len() as int));
}

/// What to do after a response to a request for an update.
#[derive(Clone, Copy, Debug)]
pub enum RequestStep {
    /// The response is the content.
    Ready,
    /// Request the address in the response's `Location` header.
    Follow,
    /// Give up with this error.
    Fail(&'static str),
}

/// How many responses a request may take before redirects count as a loop.
pub const MAX_REQUEST_ATTEMPTS: u32 = 5;

/// Whether an HTTP status is a redirect that is followed.
pub open spec fn is_redirect(status: u32) -> bool {
    status == 301 || status == 302 || status == 307 || status == 308
}

/// The decision after response number `attempt` (counted from 0) came with `status`.
pub fn request_step(attempt: u32, status: u32) -> (r: RequestStep)
    ensures
        status == 200 ==> r is Ready,
        status != 200 && !is_redirect(status) ==> (r matches RequestStep::Fail(e) && e == "HTTP Error"),
        is_redirect(status) && attempt + 1 >= MAX_REQUEST_ATTEMPTS ==> (r matches RequestStep::Fail(e) && e == "Redirect Loop"),
        is_redirect(status) && attempt + 1 < MAX_REQUEST_ATTEMPTS ==> r is Follow,
{
    if status == 200 {
        RequestStep::Ready
    } else if !(status == 301 || status == 302 || status == 307 || status == 308) {
        RequestStep::Fail("HTTP Error")
    } else if attempt >= MAX_REQUEST_ATTEMPTS - 1 {
        RequestStep::Fail("Redirect Loop")
    } else {
        RequestStep::Follow
    }
}

/// Whether the first chunk of a download starts like a Windows executable (`MZ`).
pub fn is_executable_header(chunk: &[u8]) -> (r: bool)
    ensures
        r == (chunk@.len() >= 2 && chunk@[0] == 0x4D && chunk@[1] == 0x5A),
{
    chunk.len() >= 2 && chunk[0] == 0x4D && chunk[1] == 0x5A
}

/// The length of the module path buffers.
pub const EXE_PATH_UNITS: usize = 300;

/// `.tmp` and a NUL, as UTF-16 units.
pub open spec fn tmp_suffix() -> Seq<u16> {
    seq![0x2Eu16, 0x74u16, 0x6Du16, 0x70u16, 0u16]
}

/// `.old` and a NUL, as UTF-16 units.
pub open spec fn old_suffix() -> Seq<u16> {
    seq![0x2Eu16, 0x6Fu16, 0x6Cu16, 0x64u16, 0u16]
}

/// The path with `suffix` written over the five units that follow its text.
pub open spec fn with_suffix(path: Seq<u16>, len: int, suffix: Seq<u16>) -> Seq<u16> {
    path.take(len) + suffix + path.skip(len + 5)
}

/// The paths of the downloaded file (`<exe>.tmp`) and of the backup
/// (`<exe>.old`) beside the running program; `Path Long` when the program's
/// path leaves no room for the suffix.
pub fn update_paths(exe: &[u16; 300]) -> (r: Result<([u16; 300], [u16; 300]), &'static str>)
    ensures
        ({
            let len = crate::path_buffer::before_nul(exe@).len();
            &&& len + 5 >= 300 ==> r == Err::<([u16; 300], [u16; 300]), &'static str>("Path Long")
            &&& len + 5 < 300 ==> (r matches Ok((t, o)) && t@ == with_suffix(exe@, len as int, tmp_suffix())
                && o@ == with_suffix(exe@, len as int, old_suffix()))
        }),
{
    let mut len: usize = 0;
    while len < 300 && exe[len] != 0
        invariant
            0 <= len <= 300,
            exe@.len() == 300,
            forall|k: int| 0 <= k < len ==> exe@[k] != 0,
        decreases 300 - len,
    {
        len += 1;
    }
    proof {
        crate::path_buffer::lemma_before_nul(exe@, len as int);
    }
    if len + 5 >= 300 {
        return Err("Path Long");
    }
    let tmp_ext: [u16; 5] = [0x2E, 0x74, 0x6D, 0x70, 0];
    let old_ext: [u16; 5] = [0x2E, 0x6F, 0x6C, 0x64, 0];
    assert(tmp_ext@ =~= tmp_suffix());
    assert(old_ext@ =~= old_suffix());
    let mut tmp = *exe;
    let mut old = *exe;
    let mut i: usize = 0;
    while i < 5
        invariant
            len + 5 < 300,
            exe@.len() == 300,
            tmp@.len() == 300,
            old@.len() == 300,
            tmp_ext@ == tmp_suffix(),
            old_ext@ == old_suffix(),
            0 <= i <= 5,
            forall|j: int| 0 <= j < 300 ==> tmp@[j] == if len <= j < len + i { tmp_suffix()[j - len] } else { exe@[j] },
            forall|j: int| 0 <= j < 300 ==> old@[j] == if len <= j < len + i { old_suffix()[j - len] } else { exe@[j] },
        decreases 5 - i,
    {
        tmp[len + i] = tmp_ext[i];
        old[len + i] = old_ext[i];
        i += 1;
    }
    assert(tmp@ =~= with_suffix(exe@, len as int, tmp_suffix()));
    assert(old@ =~= with_suffix(exe@, len as int, old_suffix()));
    Ok((tmp, old))
}

} // verus!
