use compactrs::state::AppTheme;
use compactrs::matcher::is_match;
use compactrs::path_buffer::PathBuffer;
use compactrs::batch::AppState;
use compactrs::state::BatchItem;
use compactrs::text::{collect_chars, find_from, skip_leading, str_contains};
use compactrs::wide::{
    calculate_ratio_string, concat_wstrings, fmt_progress, fmt_timestamp, fmt_u32, fmt_u32_padded,
    from_utf16_lossy, to_wstring, u64_to_wstring,
};

fn w(s: &str) -> Vec<u16> {
    s.encode_utf16().chain(std::iter::once(0)).collect()
}

#[test]
fn to_wstring_appends_nul() {
    assert_eq!(to_wstring("Hello"), vec![72, 101, 108, 108, 111, 0]);
    assert_eq!(to_wstring(""), vec![0]);
}

#[test]
fn to_wstring_encodes_surrogate_pairs() {
    assert_eq!(to_wstring("\u{1F4C4}"), vec![0xD83D, 0xDCC4, 0]);
}

#[test]
fn decode_of_encode_gives_back_the_text() {
    let s = "Dir/\u{e9}t\u{e9} \u{1F4C2}";
    let mut units = to_wstring(s);
    units.pop();
    assert_eq!(from_utf16_lossy(&units), s);
}

#[test]
fn lossy_decode_replaces_lone_surrogates() {
    assert_eq!(from_utf16_lossy(&[0x41, 0xD800, 0x42]), "A\u{FFFD}B");
    assert_eq!(from_utf16_lossy(&[0xDC00]), "\u{FFFD}");
}

#[test]
fn number_formats() {
    assert_eq!(u64_to_wstring(0), w("0"));
    assert_eq!(u64_to_wstring(18446744073709551615), w("18446744073709551615"));
    assert_eq!(fmt_u32(4096), w("4096"));
    assert_eq!(fmt_u32_padded(7), w("07"));
    assert_eq!(fmt_u32_padded(42), w("42"));
    assert_eq!(fmt_u32_padded(123), w("123"));
    assert_eq!(fmt_progress(3, 10), w("Processed 3 / 10"));
}

#[test]
fn timestamp_shows_time_of_day() {
    assert_eq!(fmt_timestamp(3661), w("[01:01:01]"));
    assert_eq!(fmt_timestamp(86400 + 45296), w("[12:34:56]"));
}

#[test]
fn concat_drops_inner_terminators() {
    let a = w("ab");
    let b: Vec<u16> = vec![99];
    let c = w("d");
    assert_eq!(concat_wstrings(&[&a, &b, &c]), w("abcd"));
    assert_eq!(concat_wstrings(&[]), vec![0]);
}

#[test]
fn ratio_string_truncates_to_one_decimal() {
    assert_eq!(calculate_ratio_string(0, 5), w("-"));
    assert_eq!(calculate_ratio_string(1000, 595), w("40.5%"));
    assert_eq!(calculate_ratio_string(3, 2), w("33.3%"));
    assert_eq!(calculate_ratio_string(100, 150), w("0.0%"));
}

#[test]
fn glob_literal_and_wildcards() {
    assert!(is_match("abc", "abc"));
    assert!(!is_match("abc", "abcd"));
    assert!(is_match("a?c", "abc"));
    assert!(!is_match("a?c", "ac"));
    assert!(is_match("*.txt", "notes.txt"));
    assert!(!is_match("*.txt", "notes.txt.bak"));
    assert!(is_match("a**b", "ab"));
    assert!(is_match("*", ""));
    assert!(is_match("", ""));
    assert!(!is_match("", "x"));
    assert!(is_match("^abc$", "abc"));
    assert!(is_match("^a*", "abc"));
    assert!(is_match("*c$", "abc"));
    assert!(!is_match("^abc$", "xabc"));
    assert!(is_match("a^b", "a^b"));
    assert!(is_match("^", ""));
}

#[test]
fn glob_anchors_at_the_ends() {
    assert!(is_match("^a", "a"));
    assert!(!is_match("^a", "^a"));
    assert!(is_match("a$", "a"));
    assert!(is_match("^^a", "^a"));
    assert!(is_match("a$$", "a$"));
}

#[test]
fn glob_star_matches_everything_and_text_matches_itself() {
    for t in ["", "x", "hello world", "*?"] {
        assert!(is_match("*", t));
    }
    for t in ["plain", "with space", "digits123"] {
        assert!(is_match(t, t));
    }
}

#[test]
fn lowercase_and_trim_through_the_batch() {
    let item = BatchItem::new(1, "C:\\HeLLo \u{C9}".to_string());
    assert_eq!(item.path_lower, "c:\\hello \u{e9}");
    let mut st = AppState::new(AppTheme::System, false, false, false);
    st.add_batch_item("C:\\Games\\Zeta".to_string());
    st.add_batch_item("D:\\Other".to_string());
    st.search_state.text = "  GAMES \t".to_string();
    let s = st.refresh_file_list();
    assert_eq!(st.filtered_items, vec![0]);
    assert!(!s.is_default_state);
}

#[test]
fn character_searches() {
    let hay = collect_chars("a-b-c");
    let dash = collect_chars("-");
    assert_eq!(find_from(&hay, &dash, 0), Some(1));
    assert_eq!(find_from(&hay, &dash, 2), Some(3));
    assert_eq!(find_from(&hay, &dash, 4), None);
    assert_eq!(skip_leading(&collect_chars("vv1.0"), 'v'), 2);
    assert!(str_contains("compactrs.exe", "rs.ex"));
    assert!(!str_contains("compactrs", "exe"));
}

#[test]
fn path_buffer_joins_with_backslashes() {
    let mut pb = PathBuffer::from("C:/Users/me");
    assert_eq!(pb.to_string_lossy(), "C:\\Users\\me");
    pb.push("docs/a.txt");
    assert_eq!(pb.to_string_lossy(), "C:\\Users\\me\\docs\\a.txt");
    assert_eq!(pb.len(), "C:\\Users\\me\\docs\\a.txt".len());
    assert_eq!(*pb.as_wide().last().unwrap(), 0);
}

#[test]
fn path_buffer_no_double_separator() {
    let mut pb = PathBuffer::from("C:\\");
    pb.push("x");
    assert_eq!(pb.to_string_lossy(), "C:\\x");
}

#[test]
fn path_buffer_first_push_and_empty() {
    let mut pb = PathBuffer::with_capacity(10);
    assert!(pb.is_empty());
    assert_eq!(pb.to_string_lossy(), "");
    assert_eq!(pb.as_wide(), &[0u16][..]);
    pb.push("a/b");
    assert_eq!(pb.to_string_lossy(), "a\\b");
}

#[test]
fn path_buffer_long_path_prefix() {
    let long = format!("C:/{}", "d".repeat(250));
    let pb = PathBuffer::from(&long);
    let text = pb.to_string_lossy();
    assert!(text.starts_with("\\\\?\\C:\\"));
    assert_eq!(text.len(), 4 + long.len());
    let already = format!("\\\\?\\C:\\{}", "d".repeat(250));
    assert_eq!(PathBuffer::from(&already).to_string_lossy(), already);
    let no_colon = "d".repeat(300);
    assert_eq!(PathBuffer::from(&no_colon).to_string_lossy(), no_colon);
}

#[test]
fn path_buffer_raw_units_stop_at_nul() {
    let mut pb = PathBuffer::from("C:\\dir");
    let name: Vec<u16> = vec![0x66, 0x2E, 0x74, 0, 0x78, 0x79];
    pb.push_u16_slice(&name);
    assert_eq!(pb.to_string_lossy(), "C:\\dir\\f.t");
}

#[test]
fn path_buffer_truncate_restores_terminator() {
    let mut pb = PathBuffer::from("C:\\dir");
    let keep = pb.len();
    pb.push("child");
    pb.truncate(keep);
    assert_eq!(pb.to_string_lossy(), "C:\\dir");
    assert_eq!(*pb.as_wide().last().unwrap(), 0);
    pb.truncate(1000);
    assert_eq!(pb.to_string_lossy(), "C:\\dir");
    pb.truncate(2);
    assert_eq!(pb.to_string_lossy(), "C:");
    assert_eq!(pb.len(), 2);
    pb.truncate(0);
    assert_eq!(pb.as_wide(), &[0u16][..]);
}

#[test]
fn path_buffer_lossy_text_keeps_length() {
    let mut pb = PathBuffer::from("C:\\d");
    let odd: Vec<u16> = vec![0xD800, 0x41, 0xD83D, 0xDE00];
    pb.push_u16_slice(&odd);
    let s = pb.to_string_lossy();
    assert_eq!(s.encode_utf16().count(), pb.len());
    assert_eq!(s, "C:\\d\\\u{FFFD}A\u{1F600}");
    let plain = PathBuffer::from("C:\\x\\y");
    let mut units = plain.to_string_lossy().encode_utf16().collect::<Vec<u16>>();
    units.push(0);
    assert_eq!(units.as_slice(), plain.as_wide());
}
