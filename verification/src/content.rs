//! What one pasteboard change is recorded as.

use vstd::prelude::*;
use vstd::utf8::encode_utf8;
use crate::hashing::{hash_str, hash_text, hash_vec};
use crate::json::{json_array, json_string_array};
use crate::paths::{decode_file_url, file_name, file_name_of, file_url_path, PathStyle};
use crate::text::{join_strings, join_text, texts};
use vstd::arithmetic::div_mod::{lemma_add_mod_noop, lemma_mod_sub_multiples_vanish, lemma_small_mod};

verus! {

/// The kind of content taken from the pasteboard.
#[derive(Debug, Clone, Copy, PartialEq, Eq, Structural)]
pub enum ContentType {
    Files,
    Image,
    RichText,
    Html,
    Text,
}

impl ContentType {
    /// The number under which the kind is stored.
    pub open spec fn spec_code(self) -> i32 {
        match self {
            ContentType::Files => 1,
            ContentType::Image => 2,
            ContentType::RichText => 3,
            ContentType::Html => 4,
            ContentType::Text => 5,
        }
    }

    /// The number under which the kind is stored: 1 for files, 2 for an image,
    /// 3 for rich text, 4 for HTML and 5 for plain text.
    pub fn code(&self) -> (c: i32)
        ensures
            c == self.spec_code(),
    {
        match self {
            ContentType::Files => 1,
            ContentType::Image => 2,
            ContentType::RichText => 3,
            ContentType::Html => 4,
            ContentType::Text => 5,
        }
    }
}

/// One entry of the clipboard history.
pub struct PasteboardContent {
    pub content_type: ContentType,
    pub value: String,
    pub search: String,
    pub hash: String,
    pub width: Option<i32>,
    pub height: Option<i32>,
    pub size: Option<i32>,
    pub timestamp: i64,
    pub tag_id: Option<i32>,
}

/// Reads the clock with `chrono::Utc::now()` and returns `timestamp_millis()` of
/// it: milliseconds since the Unix epoch. It depends on the time of the call, so
/// nothing is stated of the result.
#[verifier::external_body]
fn now_millis() -> i64 {
    chrono::Utc::now().timestamp_millis()
}

/// The sum of a list of lengths.
pub open spec fn total_length(lengths: Seq<u64>) -> nat
    decreases lengths.len(),
{
    if lengths.len() == 0 {
        0
    } else {
        total_length(lengths.drop_last()) + lengths.last() as nat
    }
}

/// The low 32 bits of an integer read as a signed 32-bit integer (what `as i32`
/// keeps of a 64-bit unsigned number).
pub open spec fn low32_signed(x: int) -> int {
    let m = x % 0x1_0000_0000;
    if m < 0x8000_0000 {
        m as int
    } else {
        m - 0x1_0000_0000
    }
}

/// The size recorded for a list of files: the sum of their lengths in bytes,
/// cut to a signed 32-bit integer as `as i32` does.
pub fn files_size(file_lengths: Vec<u64>) -> (r: i32)
    requires
        total_length(file_lengths@) <= u64::MAX,
    ensures
        r == low32_signed(total_length(file_lengths@) as int),
{
    let mut size: u64 = 0;
    let mut i: usize = 0;
    while i < file_lengths.len()
        invariant
            i <= file_lengths.len(),
            total_length(file_lengths@) <= u64::MAX,
            size == total_length(file_lengths@.take(i as int)),
        decreases file_lengths.len() - i,
    {
        assert(file_lengths@.take(i + 1).drop_last() =~= file_lengths@.take(i as int));
        proof {
            total_length_prefix(file_lengths@, i + 1);
        }
        size = size + file_lengths[i];
        i = i + 1;
    }
    assert(file_lengths@.take(file_lengths.len() as int) =~= file_lengths@);
    wrap_to_i32(size)
}

proof fn total_length_prefix(l: Seq<u64>, k: int)
    requires
        0 <= k <= l.len(),
    ensures
        total_length(l.take(k)) <= total_length(l),
    decreases l.len(),
{
    if k < l.len() {
        assert(l.drop_last().take(k) =~= l.take(k));
        total_length_prefix(l.drop_last(), k);
    } else {
        assert(l.take(k) =~= l);
    }
}

/// Whether the lengths add up to no more than `u64::MAX`.
pub fn total_length_fits(lengths: &Vec<u64>) -> (r: bool)
    ensures
        r == (total_length(lengths@) <= u64::MAX),
{
    let mut sum: u64 = 0;
    let mut i: usize = 0;
    while i < lengths.len()
        invariant
            i <= lengths.len(),
            sum == total_length(lengths@.take(i as int)),
        decreases lengths.len() - i,
    {
        assert(lengths@.take(i + 1).drop_last() =~= lengths@.take(i as int));
        match sum.checked_add(lengths[i]) {
            Some(s) => {
                sum = s;
            },
            None => {
                proof {
                    total_length_prefix(lengths@, i + 1);
                }
                return false;
            },
        }
        i = i + 1;
    }
    assert(lengths@.take(lengths.len() as int) =~= lengths@);
    true
}

fn wrap_to_i32(x: u64) -> (r: i32)
    ensures
        r == low32_signed(x as int),
{
    let m: u64 = x % 0x1_0000_0000;
    if m < 0x8000_0000 {
        m as i32
    } else {
        let low: i64 = m as i64;
        (low - 0x1_0000_0000) as i32
    }
}

/// The local paths that a list of file URLs name (each assumed to decode).
pub open spec fn file_paths(urls: Seq<Seq<char>>) -> Seq<Seq<char>> {
    urls.map_values(
        |u: Seq<char>|
            match file_url_path(u) {
                Some(p) => p,
                None => seq![],
            },
    )
}

/// Every URL of the list names a local path.
pub open spec fn all_urls_decode(urls: Seq<Seq<char>>) -> bool {
    forall|i: int| 0 <= i < urls.len() ==> (#[trigger] file_url_path(urls[i])) is Some
}

/// The file names of the paths that have one, in order.
pub open spec fn file_names(style: PathStyle, paths: Seq<Seq<char>>) -> Seq<Seq<char>>
    decreases paths.len(),
{
    if paths.len() == 0 {
        seq![]
    } else {
        let rest = file_names(style, paths.drop_last());
        match file_name_of(style, paths.last()) {
            Some(n) => rest.push(n),
            None => rest,
        }
    }
}

/// The search text of a file list: the file names joined by ", ".
pub open spec fn files_search(style: PathStyle, paths: Seq<Seq<char>>) -> Seq<char> {
    join_text(file_names(style, paths), seq![',', ' '])
}

/// The hash of a file list: the hash of all its paths written one after another.
pub open spec fn files_hash(paths: Seq<Seq<char>>) -> Seq<char> {
    hash_text(encode_utf8(join_text(paths, seq![])))
}

/// `c` is the entry for the files at `paths` with the given lengths: its value
/// is the JSON array of the paths, its search text the file names, its hash the
/// hash of the joined paths and its size the total length; it has no width,
/// height or tag.
pub open spec fn is_files_entry(
    c: PasteboardContent,
    style: PathStyle,
    paths: Seq<Seq<char>>,
    lengths: Seq<u64>,
) -> bool {
    &&& c.content_type == ContentType::Files
    &&& c.value@ == json_array(paths)
    &&& c.search@ == files_search(style, paths)
    &&& c.hash@ == files_hash(paths)
    &&& c.width is None
    &&& c.height is None
    &&& c.size == Some(low32_signed(total_length(lengths) as int) as i32)
    &&& c.tag_id is None
}

/// Decodes every file URL of the list: the paths in order, or `None` when one
/// of the URLs does not name a local path.
pub fn decode_file_urls(file_urls: &Vec<String>) -> (r: Option<Vec<String>>)
    ensures
        r is Some <==> all_urls_decode(texts(file_urls@)),
        r matches Some(paths) ==> texts(paths@) == file_paths(texts(file_urls@)),
{
    let ghost urls = texts(file_urls@);
    let mut paths: Vec<String> = Vec::new();
    let mut i: usize = 0;
    while i < file_urls.len()
        invariant
            i <= file_urls.len(),
            urls == texts(file_urls@),
            urls.len() == file_urls.len(),
            paths.len() == i,
            forall|j: int| 0 <= j < i ==> (#[trigger] file_url_path(urls[j])) is Some,
            forall|j: int| 0 <= j < i ==> file_url_path(urls[j]) == Some(#[trigger] paths@[j]@),
        decreases file_urls.len() - i,
    {
        match decode_file_url(file_urls[i].as_str()) {
            Some(p) => {
                paths.push(p);
            },
            None => {
                assert(file_url_path(urls[i as int]) is None);
                return None;
            },
        }
        i = i + 1;
    }
    assert(texts(paths@) =~= file_paths(urls));
    Some(paths)
}

impl PasteboardContent {
    /// Builds an entry with all its fields given, the time included.
    pub fn stamped(
        content_type: ContentType,
        value: String,
        search: String,
        hash: String,
        width: Option<i32>,
        height: Option<i32>,
        size: Option<i32>,
        tag_id: Option<i32>,
        timestamp: i64,
    ) -> (r: Self)
        ensures
            r.content_type == content_type,
            r.value == value,
            r.search == search,
            r.hash == hash,
            r.width == width,
            r.height == height,
            r.size == size,
            r.tag_id == tag_id,
            r.timestamp == timestamp,
    {
        PasteboardContent {
            content_type,
            value,
            search,
            hash,
            width,
            height,
            size,
            timestamp,
            tag_id,
        }
    }

    /// Builds an entry stamped with the current time: the clock is read once and
    /// the reading is handed to `stamped`.
    pub fn new(
        content_type: ContentType,
        value: String,
        search: String,
        hash: String,
        width: Option<i32>,
        height: Option<i32>,
        size: Option<i32>,
        tag_id: Option<i32>,
    ) -> (r: Self)
        ensures
            r.content_type == content_type,
            r.value == value,
            r.search == search,
            r.hash == hash,
            r.width == width,
            r.height == height,
            r.size == size,
            r.tag_id == tag_id,
    {
        let now = now_millis();
        PasteboardContent::stamped(content_type, value, search, hash, width, height, size, tag_id, now)
    }

    fn from_paths(paths: Vec<String>, file_lengths: Vec<u64>, style: PathStyle) -> (r: Self)
        requires
            total_length(file_lengths@) <= u64::MAX,
        ensures
            is_files_entry(r, style, texts(paths@), file_lengths@),
    {
        let ghost ps = texts(paths@);
        let mut names: Vec<String> = Vec::new();
        let mut i: usize = 0;
        while i < paths.len()
            invariant
                i <= paths.len(),
                ps == texts(paths@),
                ps.len() == paths.len(),
                texts(names@) == file_names(style, ps.take(i as int)),
            decreases paths.len() - i,
        {
            assert(ps.take(i + 1).drop_last() =~= ps.take(i as int));
            assert(ps.take(i + 1).last() == paths@[i as int]@);
            match file_name(paths[i].as_str(), style) {
                Some(n) => {
                    names.push(n);
                    assert(texts(names@) =~= file_names(style, ps.take(i as int)).push(
                        names@.last()@,
                    ));
                },
                None => {},
            }
            i = i + 1;
        }
        assert(ps.take(paths.len() as int) =~= ps);
        let sep = ", ";
        proof {
            reveal_strlit(", ");
        }
        assert(sep@ =~= seq![',', ' ']);
        let search = join_strings(&names, sep);
        let empty = "";
        proof {
            reveal_strlit("");
        }
        assert(empty@ =~= Seq::<char>::empty());
        let joined = join_strings(&paths, empty);
        let hash = hash_str(joined.as_str());
        let size = files_size(file_lengths);
        let value = json_string_array(paths);
        PasteboardContent::new(ContentType::Files, value, search, hash, None, None, Some(size), None)
    }

    /// The entry for a list of file URLs: the URLs are decoded to local paths,
    /// whose file names are read in the given path style; `file_lengths` are the
    /// lengths in bytes of the files.
    pub fn new_files(file_urls: Vec<String>, file_lengths: Vec<u64>, style: PathStyle) -> (r: Self)
        requires
            all_urls_decode(texts(file_urls@)),
            total_length(file_lengths@) <= u64::MAX,
        ensures
            is_files_entry(r, style, file_paths(texts(file_urls@)), file_lengths@),
    {
        let paths = decode_file_urls(&file_urls).unwrap();
        PasteboardContent::from_paths(paths, file_lengths, style)
    }

    /// Like `new_files`, but answers `None`, and builds nothing, when one of the
    /// URLs does not name a local path.
    pub fn try_new_files(file_urls: Vec<String>, file_lengths: Vec<u64>, style: PathStyle) -> (r: Option<
        Self,
    >)
        requires
            total_length(file_lengths@) <= u64::MAX,
        ensures
            r is Some <==> all_urls_decode(texts(file_urls@)),
            r matches Some(c) ==> is_files_entry(c, style, file_paths(texts(file_urls@)), file_lengths@),
    {
        match decode_file_urls(&file_urls) {
            Some(paths) => Some(PasteboardContent::from_paths(paths, file_lengths, style)),
            None => None,
        }
    }

    /// The entry for plain text. How a text entry is laid out is this library's
    /// own choice: the text is both value and search text, the hash is the hash
    /// of the text, and there are no dimensions, size or tag.
    pub fn new_text(text: String) -> (r: Self)
        ensures
            r.content_type == ContentType::Text,
            r.value@ == text@,
            r.search@ == text@,
            r.hash@ == hash_text(encode_utf8(text@)),
            r.width is None,
            r.height is None,
            r.size is None,
            r.tag_id is None,
    {
        let hash = hash_str(text.as_str());
        let search = text.clone();
        PasteboardContent::new(ContentType::Text, text, search, hash, None, None, None, None)
    }

    /// The entry for HTML. How an HTML entry is laid out is this library's own
    /// choice: the markup is the value and the hash is its hash, and the plain
    /// text that comes with it is the search text.
    pub fn new_html(text_html: String, text: String) -> (r: Self)
        ensures
            r.content_type == ContentType::Html,
            r.value@ == text_html@,
            r.search@ == text@,
            r.hash@ == hash_text(encode_utf8(text_html@)),
            r.width is None,
            r.height is None,
            r.size is None,
            r.tag_id is None,
    {
        let hash = hash_str(text_html.as_str());
        PasteboardContent::new(ContentType::Html, text_html, text, hash, None, None, None, None)
    }

    /// The entry for rich text. How a rich-text entry is laid out is this
    /// library's own choice: the rich text is both value and search text, and the
    /// hash is its hash.
    pub fn new_rich(text_rich: String) -> (r: Self)
        ensures
            r.content_type == ContentType::RichText,
            r.value@ == text_rich@,
            r.search@ == text_rich@,
            r.hash@ == hash_text(encode_utf8(text_rich@)),
            r.width is None,
            r.height is None,
            r.size is None,
            r.tag_id is None,
    {
        let hash = hash_str(text_rich.as_str());
        let search = text_rich.clone();
        PasteboardContent::new(ContentType::RichText, text_rich, search, hash, None, None, None, None)
    }

    /// The entry for an image given by its encoded bytes and its dimensions. How
    /// an image entry is laid out is this library's own choice: the hash of the
    /// bytes is both the hash and the value, the search text is
    /// empty, and the width, height and byte count are cut to signed 32-bit
    /// integers as `as i32` does.
    pub fn new_img(image: &[u8], width: u32, height: u32) -> (r: Self)
        ensures
            r.content_type == ContentType::Image,
            r.value@ == hash_text(image@),
            r.search@ == Seq::<char>::empty(),
            r.hash@ == hash_text(image@),
            r.width == Some(low32_signed(width as int) as i32),
            r.height == Some(low32_signed(height as int) as i32),
            r.size == Some(low32_signed(image@.len() as int) as i32),
            r.tag_id is None,
    {
        let hash = hash_vec(image);
        let value = hash.clone();
        let len: u64 = image.len() as u64;
        let size = wrap_to_i32(len);
        let w = wrap_to_i32(width as u64);
        let h = wrap_to_i32(height as u64);
        PasteboardContent::new(
            ContentType::Image,
            value,
            String::new(),
            hash,
            Some(w),
            Some(h),
            Some(size),
            None,
        )
    }
}

/// Each kind has its own number, between 1 and 5.
pub proof fn code_identifies_kind(a: ContentType, b: ContentType)
    ensures
        1 <= a.spec_code() <= 5,
        a.spec_code() == b.spec_code() ==> a == b,
{
}

proof fn total_length_concat(a: Seq<u64>, b: Seq<u64>)
    ensures
        total_length(a + b) == total_length(a) + total_length(b),
    decreases b.len(),
{
    if b.len() == 0 {
        assert(a + b =~= a);
    } else {
        assert((a + b).drop_last() =~= a + b.drop_last());
        total_length_concat(a, b.drop_last());
    }
}

proof fn low32_signed_congruent(x: int)
    ensures
        low32_signed(x) % 0x1_0000_0000 == x % 0x1_0000_0000,
{
    let m = x % 0x1_0000_0000;
    lemma_small_mod(m as nat, 0x1_0000_0000);
    if m >= 0x8000_0000 {
        lemma_mod_sub_multiples_vanish(m, 0x1_0000_0000);
    }
}

/// The size of two lists of files put together is the 32-bit wrapping sum of
/// their sizes, whichever comes first: the total length is the sum of the two
/// totals, and cutting to 32 bits commutes with adding.
pub proof fn files_size_of_concatenation(a: Seq<u64>, b: Seq<u64>)
    ensures
        total_length(a + b) == total_length(a) + total_length(b),
        total_length(a + b) == total_length(b + a),
        low32_signed(total_length(a + b) as int) == low32_signed(
            low32_signed(total_length(a) as int) + low32_signed(total_length(b) as int),
        ),
{
    total_length_concat(a, b);
    total_length_concat(b, a);
    let x = total_length(a) as int;
    let y = total_length(b) as int;
    low32_signed_congruent(x);
    low32_signed_congruent(y);
    lemma_add_mod_noop(x, y, 0x1_0000_0000);
    lemma_add_mod_noop(low32_signed(x), low32_signed(y), 0x1_0000_0000);
}

/// Two files entries built from the same paths and lengths, in the same style,
/// agree on every field but the time.
pub proof fn files_entries_agree(
    c1: PasteboardContent,
    c2: PasteboardContent,
    style: PathStyle,
    paths: Seq<Seq<char>>,
    lengths: Seq<u64>,
)
    requires
        is_files_entry(c1, style, paths, lengths),
        is_files_entry(c2, style, paths, lengths),
    ensures
        c1.content_type == c2.content_type,
        c1.value@ == c2.value@,
        c1.search@ == c2.search@,
        c1.hash@ == c2.hash@,
        c1.width == c2.width,
        c1.height == c2.height,
        c1.size == c2.size,
        c1.tag_id == c2.tag_id,
{
}

} // verus!
