//! From a `file://` URL on the pasteboard to the file's path and name.

use vstd::prelude::*;
use vstd::string::*;
use vstd::utf8::{
    decode_utf8, encode_scalar, encode_utf8, encode_utf8_decode_utf8, encode_utf8_valid_utf8,
    has_width_1_encoding, last_continuation_byte, leading_byte_width_1, leading_byte_width_2,
    leading_byte_width_3, leading_byte_width_4, second_last_continuation_byte,
    third_last_continuation_byte, valid_utf8,
};

verus! {

/// The text view of an optional `String`.
pub open spec fn opt_text(o: Option<String>) -> Option<Seq<char>> {
    match o {
        Some(s) => Some(s@),
        None => None,
    }
}

/// The path component of `input` parsed as an absolute URL by the `url` crate
/// (still percent-encoded), or `None` where the crate rejects the input.
pub uninterp spec fn url_path_of(input: Seq<char>) -> Option<Seq<char>>;

/// Calls `url::Url::parse` and then `Url::path` on the result. The contract only
/// ties the result to the input through `url_path_of`; which inputs parse, and to
/// which path, is the WHATWG URL algorithm and is not stated here.
#[verifier::external_body]
fn parse_url_path(input: &str) -> (r: Option<String>)
    ensures
        opt_text(r) == url_path_of(input@),
{
    match url::Url::parse(input) {
        Ok(u) => Some(u.path().to_string()),
        Err(_) => None,
    }
}

/// A byte that is an ASCII hexadecimal digit of either case.
pub open spec fn is_hex_byte(b: u8) -> bool {
    (48 <= b <= 57) || (65 <= b <= 70) || (97 <= b <= 102)
}

/// The value of an ASCII hexadecimal digit byte.
pub open spec fn hex_byte_value(b: u8) -> int {
    if 48 <= b <= 57 {
        b - 48
    } else if 65 <= b <= 70 {
        b - 55
    } else {
        b - 87
    }
}

/// Percent-decoding of bytes: each `%` followed by two hexadecimal digits
/// stands for the byte they spell; every other byte, `%` and `+` included,
/// stands for itself.
pub open spec fn percent_decoded_bytes(b: Seq<u8>) -> Seq<u8>
    decreases b.len(),
{
    if b.len() == 0 {
        seq![]
    } else if b.len() >= 3 && b[0] == 37 && is_hex_byte(b[1]) && is_hex_byte(b[2]) {
        seq![(hex_byte_value(b[1]) * 16 + hex_byte_value(b[2])) as u8] + percent_decoded_bytes(
            b.skip(3),
        )
    } else {
        seq![b[0]] + percent_decoded_bytes(b.skip(1))
    }
}

/// Percent-decoding of a string: the decoded bytes read as UTF-8, or `None`
/// where they are not valid UTF-8.
pub open spec fn percent_decoded(s: Seq<char>) -> Option<Seq<char>> {
    let b = percent_decoded_bytes(encode_utf8(s));
    if valid_utf8(b) {
        Some(decode_utf8(b))
    } else {
        None
    }
}

/// Calls `urlencoding::decode`. As its source shows, it percent-decodes the
/// UTF-8 bytes of `data` (a `%` without two hexadecimal digits after it is kept
/// as it is) and then reads the bytes as UTF-8, failing where they are not valid.
#[verifier::external_body]
fn percent_decode(data: &str) -> (r: Option<String>)
    ensures
        opt_text(r) == percent_decoded(data@),
{
    match urlencoding::decode(data) {
        Ok(s) => Some(s.into_owned()),
        Err(_) => None,
    }
}

/// The local path that a file URL names: its URL path, percent-decoded.
pub open spec fn file_url_path(url: Seq<char>) -> Option<Seq<char>> {
    match url_path_of(url) {
        Some(p) => percent_decoded(p),
        None => None,
    }
}

/// Turns a file URL into the path it names; `None` where the URL does not
/// parse or its decoded path is not UTF-8.
pub fn decode_file_url(url: &str) -> (r: Option<String>)
    ensures
        opt_text(r) == file_url_path(url@),
        url_path_of(url@) matches Some(p) ==> (!p.contains('%') ==> opt_text(r) == Some(p)),
{
    proof {
        file_url_path_is_decoded_url_path(url@);
    }
    match parse_url_path(url) {
        Some(p) => decode_url_path(p.as_str()),
        None => None,
    }
}

/// Percent-decodes the path of a URL; `None` where the decoded bytes are not
/// UTF-8.
pub fn decode_url_path(path: &str) -> (r: Option<String>)
    ensures
        opt_text(r) == percent_decoded(path@),
{
    percent_decode(path)
}

/// How the paths of the machine are written.
#[derive(Debug, Clone, Copy, PartialEq, Eq, Structural)]
pub enum PathStyle {
    /// '/' separates components.
    Unix,
    /// '/' and '\' separate components, and a path may begin with a prefix
    /// (a drive such as `C:`, or `\\server\share`). Verbatim paths
    /// (`\\?\...`) are read by the same rules, where std would take '/' and
    /// "." in them literally.
    Windows,
}

/// A character that separates path components in the given style.
pub open spec fn is_separator(style: PathStyle, c: char) -> bool {
    c == '/' || (style == PathStyle::Windows && c == '\\')
}

fn separates(style: PathStyle, c: char) -> (r: bool)
    ensures
        r == is_separator(style, c),
{
    match style {
        PathStyle::Unix => c == '/',
        PathStyle::Windows => c == '/' || c == '\\',
    }
}

/// Where the last run of non-separator characters at the end of `p` begins.
pub open spec fn last_piece_start(style: PathStyle, p: Seq<char>) -> int
    decreases p.len(),
{
    if p.len() == 0 || is_separator(style, p.last()) {
        p.len() as int
    } else {
        last_piece_start(style, p.drop_last())
    }
}

/// Where the last piece of a path begins: within the path, after a separator,
/// and followed only by non-separator characters.
pub proof fn last_piece_start_bounds(style: PathStyle, p: Seq<char>)
    ensures
        0 <= last_piece_start(style, p) <= p.len(),
        p.len() > 0 && !is_separator(style, p.last()) ==> last_piece_start(style, p) < p.len(),
        forall|k: int|
            last_piece_start(style, p) <= k < p.len() ==> !is_separator(style, #[trigger] p[k]),
        last_piece_start(style, p) > 0 ==> is_separator(style, p[last_piece_start(style, p) - 1]),
    decreases p.len(),
{
    if p.len() > 0 && !is_separator(style, p.last()) {
        let q = p.drop_last();
        last_piece_start_bounds(style, q);
        assert forall|k: int| last_piece_start(style, p) <= k < p.len() implies !is_separator(
            style,
            #[trigger] p[k],
        ) by {
            if k < q.len() {
                assert(q[k] == p[k]);
            }
        }
        if last_piece_start(style, p) > 0 {
            assert(q[last_piece_start(style, p) - 1] == p[last_piece_start(style, p) - 1]);
        }
    }
}

/// The final component of a path without prefix: empty components and "."
/// components are skipped, and there is none when the path is empty, is only
/// separators, or ends in "..".
pub open spec fn last_file_name(style: PathStyle, p: Seq<char>) -> Option<Seq<char>>
    decreases p.len(),
{
    if p.len() == 0 {
        None
    } else if is_separator(style, p.last()) {
        last_file_name(style, p.drop_last())
    } else {
        let start = last_piece_start(style, p);
        let piece = p.subrange(start, p.len() as int);
        proof {
            last_piece_start_bounds(style, p);
        }
        if piece == seq!['.'] {
            last_file_name(style, p.subrange(0, start))
        } else if piece == seq!['.', '.'] {
            None
        } else {
            Some(piece)
        }
    }
}

/// Where the run of non-separator characters that begins at `from` ends.
pub open spec fn piece_end(style: PathStyle, p: Seq<char>, from: int) -> int
    decreases p.len() - from,
{
    if from < 0 || from >= p.len() || is_separator(style, p[from]) {
        from
    } else {
        piece_end(style, p, from + 1)
    }
}

/// An ASCII letter.
pub open spec fn is_ascii_letter(c: char) -> bool {
    ('a' <= c <= 'z') || ('A' <= c <= 'Z')
}

/// The length of the prefix that a path begins with: none in the Unix style; in
/// the Windows style `\\server\share` (two separators, then a server and a
/// share name that are not empty) or a drive `C:`.
pub open spec fn prefix_len(style: PathStyle, p: Seq<char>) -> int {
    if style == PathStyle::Windows && p.len() >= 2 && is_separator(style, p[0])
        && is_separator(style, p[1]) {
        let server_end = piece_end(style, p, 2);
        let share_end = piece_end(style, p, server_end + 1);
        if 2 < server_end < p.len() && server_end + 1 < share_end {
            share_end
        } else {
            0
        }
    } else if style == PathStyle::Windows && p.len() >= 2 && p[1] == ':' && is_ascii_letter(p[0]) {
        2
    } else {
        0
    }
}

proof fn piece_end_bounds(style: PathStyle, p: Seq<char>, from: int)
    requires
        0 <= from <= p.len(),
    ensures
        from <= piece_end(style, p, from) <= p.len(),
    decreases p.len() - from,
{
    if from < p.len() && !is_separator(style, p[from]) {
        piece_end_bounds(style, p, from + 1);
    }
}

/// The prefix lies within the path.
pub proof fn prefix_len_bounds(style: PathStyle, p: Seq<char>)
    ensures
        0 <= prefix_len(style, p) <= p.len(),
{
    if style == PathStyle::Windows && p.len() >= 2 && is_separator(style, p[0]) && is_separator(
        style,
        p[1],
    ) {
        piece_end_bounds(style, p, 2);
        let server_end = piece_end(style, p, 2);
        if server_end < p.len() {
            piece_end_bounds(style, p, server_end + 1);
        }
    }
}

/// The final component of a path, as `std::path::Path::file_name` gives it:
/// the prefix, if any, is not a component, and the rest is read as in
/// `last_file_name`.
pub open spec fn file_name_of(style: PathStyle, p: Seq<char>) -> Option<Seq<char>> {
    last_file_name(style, p.subrange(prefix_len(style, p), p.len() as int))
}

proof fn last_piece_start_of_prefix(style: PathStyle, p: Seq<char>, start: int, end: int)
    requires
        0 <= start <= end <= p.len(),
        forall|k: int| start <= k < end ==> !is_separator(style, #[trigger] p[k]),
        start == 0 || is_separator(style, p[start - 1]),
    ensures
        last_piece_start(style, p.subrange(0, end)) == start,
    decreases end - start,
{
    if end > start {
        assert(p.subrange(0, end).drop_last() =~= p.subrange(0, end - 1));
        last_piece_start_of_prefix(style, p, start, end - 1);
    }
}

fn piece_end_at(style: PathStyle, path: &str, n: usize, from: usize) -> (r: usize)
    requires
        n == path@.len(),
        from <= n,
    ensures
        r == piece_end(style, path@, from as int),
        from <= r <= n,
{
    let mut j = from;
    while j < n && !separates(style, path.get_char(j))
        invariant
            from <= j <= n,
            n == path@.len(),
            piece_end(style, path@, from as int) == piece_end(style, path@, j as int),
        decreases n - j,
    {
        j = j + 1;
    }
    j
}

fn prefix_length(style: PathStyle, path: &str) -> (r: usize)
    ensures
        r == prefix_len(style, path@),
{
    let n = path.unicode_len();
    match style {
        PathStyle::Unix => 0,
        PathStyle::Windows => {
            if n >= 2 && separates(style, path.get_char(0)) && separates(style, path.get_char(1)) {
                let server_end = piece_end_at(style, path, n, 2);
                if 2 < server_end && server_end < n {
                    let share_end = piece_end_at(style, path, n, server_end + 1);
                    if server_end + 1 < share_end {
                        share_end
                    } else {
                        0
                    }
                } else {
                    0
                }
            } else if n >= 2 && path.get_char(1) == ':' && ({
                let c = path.get_char(0);
                ('a' <= c && c <= 'z') || ('A' <= c && c <= 'Z')
            }) {
                2
            } else {
                0
            }
        },
    }
}

fn last_name(style: PathStyle, path: &str) -> (r: Option<String>)
    ensures
        opt_text(r) == last_file_name(style, path@),
{
    let n = path.unicode_len();
    let mut end: usize = n;
    assert(path@.subrange(0, n as int) =~= path@);
    loop
        invariant
            end <= n,
            n == path@.len(),
            last_file_name(style, path@) == last_file_name(style, path@.subrange(0, end as int)),
        decreases end,
    {
        let ghost q = path@.subrange(0, end as int);
        if end == 0 {
            return None;
        }
        if separates(style, path.get_char(end - 1)) {
            assert(q.drop_last() =~= path@.subrange(0, end - 1));
            end = end - 1;
        } else {
            let mut start: usize = end - 1;
            while start > 0 && !separates(style, path.get_char(start - 1))
                invariant
                    start < end <= n,
                    n == path@.len(),
                    forall|k: int| start <= k < end ==> !is_separator(style, #[trigger] path@[k]),
                decreases start,
            {
                start = start - 1;
            }
            proof {
                last_piece_start_of_prefix(style, path@, start as int, end as int);
                last_piece_start_bounds(style, q);
                assert(q.subrange(0, start as int) =~= path@.subrange(0, start as int));
            }
            let piece = path.substring_char(start, end);
            assert(piece@ =~= q.subrange(start as int, q.len() as int));
            let first = path.get_char(start);
            let second = if end - start >= 2 {
                path.get_char(start + 1)
            } else {
                '/'
            };
            assert(piece@.len() == end - start);
            assert(piece@[0] == first);
            assert(end - start >= 2 ==> piece@[1] == second);
            if end - start == 1 && first == '.' {
                assert(piece@ =~= seq!['.']);
                end = start;
            } else if end - start == 2 && first == '.' && second == '.' {
                assert(piece@ =~= seq!['.', '.']);
                return None;
            } else {
                assert(piece@ != seq!['.']);
                assert(piece@ != seq!['.', '.']);
                return Some(piece.to_owned());
            }
        }
    }
}

/// The file name of a path written in the given style (see `file_name_of`).
pub fn file_name(path: &str, style: PathStyle) -> (r: Option<String>)
    ensures
        opt_text(r) == file_name_of(style, path@),
{
    let pre = prefix_length(style, path);
    proof {
        prefix_len_bounds(style, path@);
    }
    let n = path.unicode_len();
    let rest = path.substring_char(pre, n);
    last_name(style, rest)
}

proof fn scalar_has_no_percent_byte(c: char)
    requires
        c != '%',
    ensures
        forall|i: int|
            0 <= i < encode_scalar(c as u32).len() ==> #[trigger] encode_scalar(c as u32)[i] != 37,
{
    let s = c as u32;
    if has_width_1_encoding(s) {
        assert(leading_byte_width_1(s) != 37u8) by (bit_vector)
            requires
                s != 37u32,
                s <= 0x7F,
        ;
    } else {
        assert(last_continuation_byte(s) != 37u8) by (bit_vector);
        assert(second_last_continuation_byte(s) != 37u8) by (bit_vector);
        assert(third_last_continuation_byte(s) != 37u8) by (bit_vector);
        assert(leading_byte_width_2(s) != 37u8) by (bit_vector);
        assert(leading_byte_width_3(s) != 37u8) by (bit_vector);
        assert(leading_byte_width_4(s) != 37u8) by (bit_vector);
    }
}

proof fn encoding_has_no_percent_byte(s: Seq<char>)
    requires
        !s.contains('%'),
    ensures
        !encode_utf8(s).contains(37u8),
    decreases s.len(),
{
    if s.len() > 0 {
        assert(s[0] != '%');
        scalar_has_no_percent_byte(s[0]);
        assert(!s.drop_first().contains('%')) by {
            if s.drop_first().contains('%') {
                let k = choose|k: int| 0 <= k < s.drop_first().len() && s.drop_first()[k] == '%';
                assert(s[k + 1] == '%');
            }
        }
        encoding_has_no_percent_byte(s.drop_first());
        let head = encode_scalar(s[0] as u32);
        let tail = encode_utf8(s.drop_first());
        assert(encode_utf8(s) == head + tail);
        if (head + tail).contains(37u8) {
            let k = choose|k: int| 0 <= k < (head + tail).len() && (head + tail)[k] == 37u8;
            if k < head.len() {
                assert(head[k] == 37u8);
            } else {
                assert(tail[k - head.len()] == 37u8);
            }
        }
    }
}

proof fn bytes_without_percent_are_kept(b: Seq<u8>)
    requires
        !b.contains(37u8),
    ensures
        percent_decoded_bytes(b) == b,
    decreases b.len(),
{
    if b.len() > 0 {
        assert(b[0] != 37u8);
        assert(!b.skip(1).contains(37u8)) by {
            if b.skip(1).contains(37u8) {
                let k = choose|k: int| 0 <= k < b.skip(1).len() && b.skip(1)[k] == 37u8;
                assert(b[k + 1] == 37u8);
            }
        }
        bytes_without_percent_are_kept(b.skip(1));
        assert(seq![b[0]] + b.skip(1) =~= b);
    }
}

/// Text without a `%` decodes to itself.
pub proof fn text_without_percent_decodes_to_itself(s: Seq<char>)
    requires
        !s.contains('%'),
    ensures
        percent_decoded(s) == Some(s),
{
    encoding_has_no_percent_byte(s);
    bytes_without_percent_are_kept(encode_utf8(s));
    encode_utf8_valid_utf8(s);
    encode_utf8_decode_utf8(s);
}

/// A name that is not empty, holds no separator, and is neither "." nor "..",
/// is the last file name of any path followed by a separator and that name; in
/// the Unix style it is the file name of that path.
pub proof fn file_name_of_joined_path(style: PathStyle, dir: Seq<char>, sep: char, name: Seq<char>)
    requires
        is_separator(style, sep),
        name.len() > 0,
        forall|k: int| 0 <= k < name.len() ==> !is_separator(style, #[trigger] name[k]),
        name != seq!['.'],
        name != seq!['.', '.'],
    ensures
        last_file_name(style, dir + seq![sep] + name) == Some(name),
        style == PathStyle::Unix ==> file_name_of(style, dir + seq![sep] + name) == Some(name),
{
    let p = dir + seq![sep] + name;
    assert(p.last() == name.last());
    assert forall|k: int| dir.len() + 1 <= k < p.len() implies !is_separator(style, #[trigger] p[k]) by {
        assert(p[k] == name[k - dir.len() - 1]);
    }
    assert(p[dir.len() as int] == sep);
    last_piece_start_of_prefix(style, p, dir.len() as int + 1, p.len() as int);
    assert(p.subrange(0, p.len() as int) =~= p);
    assert(p.subrange(dir.len() as int + 1, p.len() as int) =~= name);
}

/// The path of a file URL is exactly the percent-decoding of its URL path;
/// there is none when the URL does not parse; and a URL path without `%` is
/// the file path as it is, `+` and every other character included.
pub proof fn file_url_path_is_decoded_url_path(url: Seq<char>)
    ensures
        url_path_of(url) matches Some(p) ==> file_url_path(url) == percent_decoded(p),
        url_path_of(url) is None ==> file_url_path(url) is None,
        url_path_of(url) matches Some(p) ==> (!p.contains('%') ==> file_url_path(url) == Some(p)),
{
    if let Some(p) = url_path_of(url) {
        if !p.contains('%') {
            text_without_percent_decodes_to_itself(p);
        }
    }
}

/// In the Unix style no path has a prefix; in the Windows style a prefix is
/// only ever taken from a path that begins with two separators or with a drive
/// letter and ':'.
pub proof fn prefix_shapes(style: PathStyle, p: Seq<char>)
    ensures
        style == PathStyle::Unix ==> prefix_len(style, p) == 0,
        prefix_len(style, p) > 0 ==> p.len() >= 2 && ((is_separator(style, p[0]) && is_separator(
            style,
            p[1],
        )) || (p[1] == ':' && is_ascii_letter(p[0]))),
{
}

proof fn piece_end_runs_out(style: PathStyle, p: Seq<char>, from: int)
    requires
        0 <= from <= p.len(),
        forall|k: int| from <= k < p.len() ==> !is_separator(style, #[trigger] p[k]),
    ensures
        piece_end(style, p, from) == p.len(),
    decreases p.len() - from,
{
    if from < p.len() {
        piece_end_runs_out(style, p, from + 1);
    }
}

/// In the Windows style, a path that begins with one separator followed by a
/// non-separator (such as `\Temp\report.pdf` or `/C:/notes.txt`) has no
/// prefix, so its file name is its last component: for any name without
/// separators that is neither "." nor "..".
pub proof fn windows_rooted_path_file_name(
    first: char,
    dir: Seq<char>,
    sep: char,
    name: Seq<char>,
)
    requires
        is_separator(PathStyle::Windows, first),
        is_separator(PathStyle::Windows, sep),
        dir.len() == 0 || !is_separator(PathStyle::Windows, dir[0]),
        name.len() > 0,
        forall|k: int| 0 <= k < name.len() ==> !is_separator(PathStyle::Windows, #[trigger] name[k]),
        name != seq!['.'],
        name != seq!['.', '.'],
    ensures
        file_name_of(PathStyle::Windows, seq![first] + dir + seq![sep] + name) == Some(name),
{
    let w = PathStyle::Windows;
    let d = seq![first] + dir;
    let p = d + seq![sep] + name;
    if dir.len() == 0 {
        assert(p =~= seq![first, sep] + name);
        assert forall|k: int| 2 <= k < p.len() implies !is_separator(w, #[trigger] p[k]) by {
            assert(p[k] == name[k - 2]);
        }
        piece_end_runs_out(w, p, 2);
    } else {
        assert(p[1] == dir[0]);
    }
    assert(prefix_len(w, p) == 0);
    assert(p.subrange(0, p.len() as int) =~= p);
    file_name_of_joined_path(w, d, sep, name);
}

/// In the Windows style, a path that begins with a drive (`C:`) has the drive
/// as its prefix, and its file name is its last component.
pub proof fn windows_drive_path_file_name(
    letter: char,
    dir: Seq<char>,
    sep: char,
    name: Seq<char>,
)
    requires
        is_ascii_letter(letter),
        is_separator(PathStyle::Windows, sep),
        name.len() > 0,
        forall|k: int| 0 <= k < name.len() ==> !is_separator(PathStyle::Windows, #[trigger] name[k]),
        name != seq!['.'],
        name != seq!['.', '.'],
    ensures
        file_name_of(PathStyle::Windows, seq![letter, ':'] + dir + seq![sep] + name) == Some(name),
{
    let w = PathStyle::Windows;
    let p = seq![letter, ':'] + dir + seq![sep] + name;
    assert(p[0] == letter);
    assert(p[1] == ':');
    assert(!is_separator(w, p[0]));
    assert(prefix_len(w, p) == 2);
    assert(p.subrange(2, p.len() as int) =~= dir + seq![sep] + name);
    file_name_of_joined_path(w, dir, sep, name);
}

} // verus!
