use pasteboard::content::{decode_file_urls, files_size, total_length_fits, ContentType, PasteboardContent};
use pasteboard::hashing::{hash_str, hash_vec};
use pasteboard::hex::to_hex_lower;
use pasteboard::manager::{has_files, next_read, ClipboardManager, ClipboardSource};
use pasteboard::paths::{decode_file_url, decode_url_path, file_name, PathStyle};
use pasteboard::records::{
    default_tag, history_filters, i32_to_decimal, missing_tag_message, search_pattern, tag_check,
    HistoryFilter,
};

fn sanity_bytes(n: usize) -> Vec<u8> {
    let prime: u64 = 2654435761;
    let prime64: u64 = 11400714785074694797;
    let mut gen = prime;
    let mut out = Vec::new();
    for _ in 0..n {
        out.push((gen >> 56) as u8);
        gen = gen.wrapping_mul(prime64);
    }
    out
}

#[test]
fn hex_rendering() {
    assert_eq!(to_hex_lower(0), "0");
    assert_eq!(to_hex_lower(15), "f");
    assert_eq!(to_hex_lower(16), "10");
    assert_eq!(to_hex_lower(255), "ff");
    assert_eq!(to_hex_lower(0xdead_beef), "deadbeef");
    assert_eq!(to_hex_lower(u64::MAX), "ffffffffffffffff");
    assert_eq!(to_hex_lower(0x0123_4567_89ab_cdef), format!("{:x}", 0x0123_4567_89ab_cdefu64));
}

#[test]
fn hash_of_empty_input_is_zero() {
    assert_eq!(hash_str(""), "0");
    assert_eq!(hash_vec(&[]), "0");
}

#[test]
fn hash_matches_reference_digests() {
    assert_eq!(hash_vec(&sanity_bytes(1)), "7198d737cfe7f386");
    assert_eq!(hash_vec(&sanity_bytes(6)), "22cbf5f3e1f6257c");
    assert_eq!(hash_vec(&sanity_bytes(12)), "d5361cceebb5a0cc");
    assert_eq!(hash_vec(&sanity_bytes(24)), "46796f3f78b20f6b");
}

#[test]
fn hash_str_hashes_utf8_bytes() {
    for s in ["a", "hello world", "黑风雷", "/tmp/a.txt/tmp/b.txt"] {
        assert_eq!(hash_str(s), hash_vec(s.as_bytes()));
    }
    assert_ne!(hash_str("a"), hash_str("b"));
}

#[test]
fn file_urls_decode_to_paths() {
    assert_eq!(decode_file_url("file:///tmp/a%20b.txt"), Some("/tmp/a b.txt".to_string()));
    assert_eq!(decode_file_url("file:///tmp/plain.txt"), Some("/tmp/plain.txt".to_string()));
    assert_eq!(
        decode_file_url("file:///Users/me/%E6%96%87%E4%BB%B6.md"),
        Some("/Users/me/文件.md".to_string())
    );
    assert_eq!(decode_file_url("file:///tmp/x?query=1"), Some("/tmp/x".to_string()));
    assert_eq!(decode_file_url("file:///tmp/50%25"), Some("/tmp/50%".to_string()));
}

#[test]
fn bad_file_urls_are_rejected() {
    assert_eq!(decode_file_url("not a url"), None);
    assert_eq!(decode_file_url(""), None);
    assert_eq!(decode_file_url("file:///tmp/%FF%FE"), None);
}

#[test]
fn file_names_of_paths() {
    assert_eq!(file_name("/tmp/a.txt", PathStyle::Unix), Some("a.txt".to_string()));
    assert_eq!(file_name("/tmp/dir/", PathStyle::Unix), Some("dir".to_string()));
    assert_eq!(file_name("a//b//", PathStyle::Unix), Some("b".to_string()));
    assert_eq!(file_name("/tmp/a/.", PathStyle::Unix), Some("a".to_string()));
    assert_eq!(file_name("./a", PathStyle::Unix), Some("a".to_string()));
    assert_eq!(file_name("..a", PathStyle::Unix), Some("..a".to_string()));
    assert_eq!(file_name("/", PathStyle::Unix), None);
    assert_eq!(file_name("", PathStyle::Unix), None);
    assert_eq!(file_name(".", PathStyle::Unix), None);
    assert_eq!(file_name("/tmp/..", PathStyle::Unix), None);
    assert_eq!(file_name("../", PathStyle::Unix), None);
}

#[test]
fn file_names_agree_with_std_path() {
    for p in ["/tmp/a.txt", "/tmp/dir/", "a//b//", "/tmp/a/.", "./a", "/", "", ".", "/tmp/..", "x/./y/."] {
        let std_name = std::path::Path::new(p).file_name().and_then(|n| n.to_str()).map(String::from);
        assert_eq!(file_name(p, PathStyle::Unix), std_name, "path {:?}", p);
    }
}

#[test]
fn files_entry_fields() {
    let urls = vec!["file:///tmp/a.txt".to_string(), "file:///tmp/b%22c.txt".to_string()];
    let c = PasteboardContent::new_files(urls, vec![10, 20], PathStyle::Unix);
    assert_eq!(c.content_type, ContentType::Files);
    assert_eq!(c.value, "[\"/tmp/a.txt\",\"/tmp/b\\\"c.txt\"]");
    assert_eq!(c.search, "a.txt, b\"c.txt");
    assert_eq!(c.hash, hash_str("/tmp/a.txt/tmp/b\"c.txt"));
    assert_eq!(c.width, None);
    assert_eq!(c.height, None);
    assert_eq!(c.size, Some(30));
    assert_eq!(c.tag_id, None);
    assert!(c.timestamp > 1_600_000_000_000);
}

#[test]
fn files_entry_skips_paths_without_a_name() {
    let urls = vec!["file:///".to_string(), "file:///home/u/notes".to_string()];
    let c = PasteboardContent::new_files(urls, vec![0, 7], PathStyle::Unix);
    assert_eq!(c.value, "[\"/\",\"/home/u/notes\"]");
    assert_eq!(c.search, "notes");
    assert_eq!(c.hash, hash_str("//home/u/notes"));
    assert_eq!(c.size, Some(7));
}

#[test]
fn json_value_escapes_control_characters() {
    let urls = vec!["file:///tmp/a%0Ab%09c%5Cd%01".to_string()];
    let c = PasteboardContent::new_files(urls, vec![1], PathStyle::Unix);
    assert_eq!(c.value, "[\"/tmp/a\\nb\\tc\\\\d\\u0001\"]");
}

#[test]
fn files_entry_for_no_files() {
    let c = PasteboardContent::new_files(Vec::new(), Vec::new(), PathStyle::Unix);
    assert_eq!(c.value, "[]");
    assert_eq!(c.search, "");
    assert_eq!(c.hash, "0");
    assert_eq!(c.size, Some(0));
}

#[test]
fn try_new_files_rejects_bad_urls() {
    let bad = vec!["file:///tmp/a.txt".to_string(), "nonsense".to_string()];
    assert!(PasteboardContent::try_new_files(bad, vec![1, 2], PathStyle::Unix).is_none());
    let good = vec!["file:///tmp/a.txt".to_string()];
    let c = PasteboardContent::try_new_files(good, vec![3], PathStyle::Unix).unwrap();
    assert_eq!(c.search, "a.txt");
    assert_eq!(c.size, Some(3));
}

#[test]
fn decode_file_urls_in_order() {
    let urls = vec!["file:///a/b".to_string(), "file:///c%20d".to_string()];
    assert_eq!(decode_file_urls(&urls), Some(vec!["/a/b".to_string(), "/c d".to_string()]));
    let bad = vec!["file:///a/b".to_string(), "::".to_string()];
    assert_eq!(decode_file_urls(&bad), None);
    assert_eq!(decode_file_urls(&Vec::new()), Some(Vec::new()));
}

#[test]
fn files_size_wraps_like_as_i32() {
    assert_eq!(files_size(vec![]), 0);
    assert_eq!(files_size(vec![1, 2, 3]), 6);
    assert_eq!(files_size(vec![0x1_0000_0005]), 5);
    assert_eq!(files_size(vec![0x8000_0000]), i32::MIN);
    assert_eq!(files_size(vec![0xffff_ffff]), -1);
    let big: u64 = 0x7_1234_5678;
    assert_eq!(files_size(vec![big, 1]), (big + 1) as i32);
}

#[test]
fn content_type_codes() {
    assert_eq!(ContentType::Files.code(), 1);
    assert_eq!(ContentType::Image.code(), 2);
    assert_eq!(ContentType::RichText.code(), 3);
    assert_eq!(ContentType::Html.code(), 4);
    assert_eq!(ContentType::Text.code(), 5);
}

#[test]
fn text_entries() {
    let t = PasteboardContent::new_text("hello".to_string());
    assert_eq!(t.content_type, ContentType::Text);
    assert_eq!(t.value, "hello");
    assert_eq!(t.search, "hello");
    assert_eq!(t.hash, hash_str("hello"));
    assert_eq!((t.width, t.height, t.size, t.tag_id), (None, None, None, None));

    let h = PasteboardContent::new_html("<b>hi</b>".to_string(), "hi".to_string());
    assert_eq!(h.content_type, ContentType::Html);
    assert_eq!(h.value, "<b>hi</b>");
    assert_eq!(h.search, "hi");
    assert_eq!(h.hash, hash_str("<b>hi</b>"));

    let r = PasteboardContent::new_rich("{\\rtf1 x}".to_string());
    assert_eq!(r.content_type, ContentType::RichText);
    assert_eq!(r.value, "{\\rtf1 x}");
    assert_eq!(r.search, "{\\rtf1 x}");
    assert_eq!(r.hash, hash_str("{\\rtf1 x}"));
}

#[test]
fn image_entry() {
    let bytes = vec![0u8];
    let c = PasteboardContent::new_img(&bytes, 640, 480);
    assert_eq!(c.content_type, ContentType::Image);
    assert_eq!(c.hash, "7198d737cfe7f386");
    assert_eq!(c.value, c.hash);
    assert_eq!(c.search, "");
    assert_eq!((c.width, c.height, c.size), (Some(640), Some(480), Some(1)));
    let wide = PasteboardContent::new_img(&[], 0x8000_0000, 1);
    assert_eq!(wide.width, Some(i32::MIN));
    assert_eq!(wide.hash, "0");
    assert_eq!(wide.size, Some(0));
}

#[test]
fn length_sums_that_fit() {
    assert!(total_length_fits(&vec![]));
    assert!(total_length_fits(&vec![u64::MAX]));
    assert!(total_length_fits(&vec![u64::MAX - 1, 1]));
    assert!(!total_length_fits(&vec![u64::MAX, 1]));
    assert!(!total_length_fits(&vec![1, u64::MAX, 0]));
}

#[test]
fn new_keeps_the_given_fields() {
    let c = PasteboardContent::new(
        ContentType::Html,
        "v".to_string(),
        "s".to_string(),
        "h".to_string(),
        Some(1),
        Some(2),
        Some(3),
        Some(4),
    );
    assert_eq!(c.content_type, ContentType::Html);
    assert_eq!((c.value.as_str(), c.search.as_str(), c.hash.as_str()), ("v", "s", "h"));
    assert_eq!((c.width, c.height, c.size, c.tag_id), (Some(1), Some(2), Some(3), Some(4)));
    assert!(c.timestamp > 1_600_000_000_000);
}

#[test]
fn last_hash_check() {
    let mut m = ClipboardManager::new();
    assert_eq!(m.last_hash, "");
    assert!(m.check_last_hash("abc".to_string()));
    assert_eq!(m.last_hash, "abc");
    assert!(!m.check_last_hash("abc".to_string()));
    assert_eq!(m.last_hash, "abc");
    assert!(m.check_last_hash("def".to_string()));
    assert!(m.check_last_hash("abc".to_string()));
    assert!(!m.check_last_hash("abc".to_string()));
}

#[test]
fn same_content_twice_is_recorded_once() {
    let mut m = ClipboardManager::new();
    let first = m.offer(PasteboardContent::new_text("x".to_string()));
    assert!(first.is_some());
    let second = m.offer(PasteboardContent::new_text("x".to_string()));
    assert!(second.is_none());
    let third = m.offer(PasteboardContent::new_text("y".to_string()));
    assert_eq!(third.unwrap().value, "y");
    assert_eq!(m.last_hash, hash_str("y"));
}

#[test]
fn reading_order_of_places() {
    let mut order = Vec::new();
    let mut cur = Some(ClipboardSource::first());
    while let Some(s) = cur {
        order.push(s);
        cur = next_read(s, false);
    }
    assert_eq!(
        order,
        vec![
            ClipboardSource::Files,
            ClipboardSource::Image,
            ClipboardSource::Html,
            ClipboardSource::RichText,
            ClipboardSource::Text
        ]
    );
    assert_eq!(next_read(ClipboardSource::Image, true), None);
    assert_eq!(next_read(ClipboardSource::Files, true), None);
}

#[test]
fn file_list_must_be_non_empty() {
    assert!(!has_files(&Vec::new()));
    assert!(has_files(&vec!["file:///a".to_string()]));
}

#[test]
fn decimal_rendering() {
    assert_eq!(i32_to_decimal(0), "0");
    assert_eq!(i32_to_decimal(42), "42");
    assert_eq!(i32_to_decimal(-5), "-5");
    assert_eq!(i32_to_decimal(i32::MAX), "2147483647");
    assert_eq!(i32_to_decimal(i32::MIN), "-2147483648");
}

#[test]
fn query_texts() {
    assert_eq!(search_pattern("abc"), "%abc%");
    assert_eq!(search_pattern(""), "%%");
    assert_eq!(missing_tag_message(7), "tag_id 7 not in tags");
    assert_eq!(missing_tag_message(-1), "tag_id -1 not in tags");
}

#[test]
fn the_default_tag() {
    let t = default_tag();
    assert_eq!(t.id, 0);
    assert_eq!(t.name, Some("收藏夹".to_string()));
}

#[test]
fn history_query_conditions() {
    let only_time = history_filters(None, None, None, 100);
    assert_eq!(only_time.len(), 1);
    assert!(matches!(only_time[0], HistoryFilter::NewerThan(100)));

    let all = history_filters(Some("Abc"), Some(vec![1, 5]), Some(3), -7);
    assert_eq!(all.len(), 4);
    assert!(matches!(all[0], HistoryFilter::NewerThan(-7)));
    assert!(matches!(&all[1], HistoryFilter::SearchLike(p) if p == "%Abc%"));
    assert!(matches!(&all[2], HistoryFilter::TypeIn(l) if *l == vec![1, 5]));
    assert!(matches!(all[3], HistoryFilter::TagIs(3)));

    let tag_only = history_filters(None, None, Some(0), 0);
    assert_eq!(tag_only.len(), 2);
    assert!(matches!(tag_only[1], HistoryFilter::TagIs(0)));
}

#[test]
fn stamped_keeps_every_field() {
    let c = PasteboardContent::stamped(
        ContentType::Text,
        "v".to_string(),
        "s".to_string(),
        "h".to_string(),
        None,
        Some(2),
        None,
        Some(9),
        1_723_456_789_000,
    );
    assert_eq!(c.content_type, ContentType::Text);
    assert_eq!((c.value.as_str(), c.search.as_str(), c.hash.as_str()), ("v", "s", "h"));
    assert_eq!((c.width, c.height, c.size, c.tag_id), (None, Some(2), None, Some(9)));
    assert_eq!(c.timestamp, 1_723_456_789_000);
}

#[test]
fn tag_check_answers() {
    assert_eq!(tag_check(true, 5), Ok(()));
    assert_eq!(tag_check(false, 5), Err("tag_id 5 not in tags".to_string()));
    assert_eq!(tag_check(false, -3), Err("tag_id -3 not in tags".to_string()));
}

#[test]
fn url_paths_percent_decode() {
    assert_eq!(decode_url_path("/tmp/a%20b"), Some("/tmp/a b".to_string()));
    assert_eq!(decode_url_path("/plain+path"), Some("/plain+path".to_string()));
    assert_eq!(decode_url_path("/x%4"), Some("/x%4".to_string()));
    assert_eq!(decode_url_path("/x%G1%41"), Some("/x%G1A".to_string()));
    assert_eq!(decode_url_path("/x%e6%96%87"), Some("/x文".to_string()));
    assert_eq!(decode_url_path("/bad%FF"), None);
}

#[test]
fn windows_file_names() {
    let w = PathStyle::Windows;
    assert_eq!(file_name("C:\\Users\\me\\a.txt", w), Some("a.txt".to_string()));
    assert_eq!(file_name("\\Users\\me\\dir\\", w), Some("dir".to_string()));
    assert_eq!(file_name("/C:/Users/me/b.txt", w), Some("b.txt".to_string()));
    assert_eq!(file_name("C:", w), None);
    assert_eq!(file_name("C:\\", w), None);
    assert_eq!(file_name("C:foo", w), Some("foo".to_string()));
    assert_eq!(file_name("\\\\server\\share", w), None);
    assert_eq!(file_name("\\\\server\\share\\f.txt", w), Some("f.txt".to_string()));
    assert_eq!(file_name("\\\\server", w), Some("server".to_string()));
    assert_eq!(file_name("a\\..", w), None);
    assert_eq!(file_name("a\\.", w), Some("a".to_string()));
    // In the Unix style a backslash is part of the name.
    assert_eq!(file_name("C:\\Users\\a.txt", PathStyle::Unix), Some("C:\\Users\\a.txt".to_string()));
}

#[test]
fn windows_files_entry() {
    let urls = vec!["C:\\Users\\me\\a%20b.txt".to_string()];
    let c = PasteboardContent::new_files(urls, vec![4], PathStyle::Windows);
    assert_eq!(c.search, "a b.txt");
    assert_eq!(c.value, "[\"\\\\Users\\\\me\\\\a b.txt\"]");
    assert_eq!(c.size, Some(4));
}

#[test]
fn sizes_add_over_concatenated_lists() {
    let a: Vec<u64> = vec![0xffff_ffff, 3];
    let b: Vec<u64> = vec![0x8000_0000, 7];
    let ab: Vec<u64> = [a.clone(), b.clone()].concat();
    let ba: Vec<u64> = [b.clone(), a.clone()].concat();
    assert_eq!(files_size(ab.clone()), files_size(a.clone()).wrapping_add(files_size(b.clone())));
    assert_eq!(files_size(ab), files_size(ba));
}

#[test]
fn same_urls_give_same_entry() {
    let urls = vec!["file:///tmp/x.txt".to_string(), "file:///tmp/y%20z".to_string()];
    let a = PasteboardContent::new_files(urls.clone(), vec![5, 6], PathStyle::Unix);
    let b = PasteboardContent::new_files(urls, vec![5, 6], PathStyle::Unix);
    assert_eq!((a.value, a.search, a.hash, a.size), (b.value, b.search, b.hash, b.size));
}
