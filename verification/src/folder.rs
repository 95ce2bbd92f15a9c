//! Serving a folder over HTTP: the range header, paths relative to the
//! served folder, and the listing page's title.

use vstd::prelude::*;
use vstd::utf8::{encode_utf8, valid_utf8, decode_utf8};
use crate::text::{
    remove_all, remove_all_text, decimal, u64_to_decimal, digit_char, all_ascii_digits, digits_value,
    is_ascii_digit, seq_contains, str_eq, string_from_chars,
    find_char, chars_eq,
    chars_of, has_char, parse_u64_chars, parse_u64_spec, seq_starts_with, char_count, lemma_char_count_split,
    lemma_char_count_zero, push_text,
};
use vstd::slice::slice_subrange;

verus! {

/// The text `bytes=` that starts a byte-range header value.
pub open spec fn bytes_prefix() -> Seq<char> {
    seq!['b', 'y', 't', 'e', 's', '=']
}

/// The range that a `Range` header value names, as `(start, end)` with the end
/// inclusive and `None` for an open end:
/// `bytes=S-E` gives `(S, Some(E))`, `bytes=S-` and `bytes=S` give `(S, None)`;
/// anything else (no `bytes=` prefix, a missing start, several ranges, a
/// number that `u64` does not parse) gives `None`.
pub open spec fn range_spec(h: Seq<char>) -> Option<(u64, Option<u64>)> {
    if !seq_starts_with(h, bytes_prefix()) {
        None
    } else {
        let v = h.subrange(6, h.len() as int);
        let dashes = char_count(v, '-');
        if dashes == 0 {
            if v.len() > 0 {
                match parse_u64_spec(v) {
                    Some(a) => Some((a, None)),
                    None => None,
                }
            } else {
                None
            }
        } else if dashes == 1 {
            let k = choose|k: int| 0 <= k < v.len() && v[k] == '-';
            let start = v.subrange(0, k);
            let end = v.subrange(k + 1, v.len() as int);
            if start.len() == 0 {
                None
            } else if end.len() == 0 {
                match parse_u64_spec(start) {
                    Some(a) => Some((a, None)),
                    None => None,
                }
            } else {
                match (parse_u64_spec(start), parse_u64_spec(end)) {
                    (Some(a), Some(b)) => Some((a, Some(b))),
                    _ => None,
                }
            }
        } else {
            None
        }
    }
}

/// Parses the value of an HTTP `Range` header; see [`range_spec`].
pub fn parse_range(header_value: &str) -> (r: Option<(u64, Option<u64>)>)
    ensures
        r == range_spec(header_value@),
{
    let h = chars_of(header_value);
    if h.len() < 6 || h[0] != 'b' || h[1] != 'y' || h[2] != 't' || h[3] != 'e' || h[4] != 's'
        || h[5] != '=' {
        assert(!seq_starts_with(h@, bytes_prefix())) by {
            if h@.len() >= 6 {
                assert(h@.subrange(0, 6)[0] == h@[0]);
                assert(h@.subrange(0, 6)[1] == h@[1]);
                assert(h@.subrange(0, 6)[2] == h@[2]);
                assert(h@.subrange(0, 6)[3] == h@[3]);
                assert(h@.subrange(0, 6)[4] == h@[4]);
                assert(h@.subrange(0, 6)[5] == h@[5]);
            }
        }
        return None;
    }
    assert(seq_starts_with(h@, bytes_prefix())) by {
        assert(h@.subrange(0, 6) =~= bytes_prefix());
    }
    let v: &[char] = slice_subrange(h.as_slice(), 6, h.len());
    assert(v@ =~= h@.subrange(6, h@.len() as int));
    // Count the dashes and remember where the first one is.
    let mut count: usize = 0;
    let mut pos: usize = 0;
    let mut i: usize = 0;
    while i < v.len()
        invariant
            i <= v.len(),
            count == char_count(v@.take(i as int), '-'),
            count <= i,
            count > 0 ==> pos < i && v@[pos as int] == '-' && !has_char(v@.take(pos as int), '-'),
        decreases v.len() - i,
    {
        assert(v@.take(i + 1).drop_last() =~= v@.take(i as int));
        if v[i] == '-' {
            if count == 0 {
                pos = i;
                proof { lemma_char_count_zero(v@.take(i as int), '-'); }
            }
            count = count + 1;
        }
        i = i + 1;
    }
    assert(v@.take(v@.len() as int) =~= v@);
    if count == 0 {
        if v.len() == 0 {
            return None;
        }
        return match parse_u64_chars(v) {
            Some(a) => Some((a, None)),
            None => None,
        };
    }
    if count > 1 {
        return None;
    }
    proof {
        lemma_char_count_split(v@, '-', pos as int);
        lemma_char_count_zero(v@.take(pos as int), '-');
        lemma_char_count_split(v@.skip(pos as int), '-', 1);
        assert(v@.skip(pos as int).take(1) =~= seq!['-']);
        assert(char_count(seq!['-'], '-') == 1) by {
            assert(seq!['-'].drop_last() =~= Seq::<char>::empty());
        }
        assert(v@.skip(pos as int).skip(1) =~= v@.skip(pos + 1));
        lemma_char_count_zero(v@.skip(pos + 1), '-');
        let k = choose|k: int| 0 <= k < v@.len() && v@[k] == '-';
        assert(0 <= k < v@.len() && v@[k] == '-');
        if k < pos {
            assert(v@.take(pos as int)[k] == '-');
        } else if k > pos {
            assert(v@.skip(pos + 1)[k - pos - 1] == '-');
        }
        assert(k == pos);
    }
    let start: &[char] = slice_subrange(v, 0, pos);
    let end: &[char] = slice_subrange(v, pos + 1, v.len());
    assert(start@ =~= v@.subrange(0, pos as int));
    assert(end@ =~= v@.subrange(pos + 1, v@.len() as int));
    if start.len() == 0 {
        return None;
    }
    if end.len() == 0 {
        return match parse_u64_chars(start) {
            Some(a) => Some((a, None)),
            None => None,
        };
    }
    match (parse_u64_chars(start), parse_u64_chars(end)) {
        (Some(a), Some(b)) => Some((a, Some(b))),
        _ => None,
    }
}

/// A folder page's path relative to the served folder: `path` with every
/// occurrence of `base` removed (`path.replace(base, "")`).
pub fn relative_path(path: &str, base_path: &str) -> (r: String)
    ensures
        r@ == remove_all(path@, base_path@),
{
    remove_all_text(path, base_path)
}

/// The title and the parent link of a folder page: `Home` and no parent for
/// the served folder itself; otherwise the relative path without its
/// leading `/`, and `..`.
pub open spec fn title_and_parent_spec(display_path: Seq<char>) -> (Seq<char>, Seq<char>) {
    if display_path.len() == 0 {
        ("Home"@, Seq::empty())
    } else if display_path[0] == '/' {
        (display_path.skip(1), ".."@)
    } else {
        (display_path, ".."@)
    }
}

/// The title and parent link of a folder page; see [`title_and_parent_spec`].
pub fn folder_title_and_parent(display_path: &str) -> (r: (String, String))
    ensures
        (r.0@, r.1@) == title_and_parent_spec(display_path@),
{
    let d = chars_of(display_path);
    if d.len() == 0 {
        return (String::from_str("Home"), String::new());
    }
    if d[0] == '/' {
        let rest = slice_subrange(d.as_slice(), 1, d.len());
        assert(rest@ =~= d@.skip(1));
        (string_from_chars(rest), String::from_str(".."))
    } else {
        (String::from_str(display_path), String::from_str(".."))
    }
}

/// The part of a file that a range request is answered with.
pub struct RangePlan {
    /// The first byte sent.
    pub start: u64,
    /// The last byte sent (inclusive).
    pub end: u64,
    /// How many bytes are sent.
    pub length: u64,
}

/// The last byte of a range: its end, or the file's last byte when the end
/// is open or past the file.
pub open spec fn range_end_spec(end: Option<u64>, total_size: u64) -> u64 {
    let last = (total_size - 1) as u64;
    match end {
        Some(e) => if e < last { e } else { last },
        None => last,
    }
}

/// The bytes `start..=end` of a file of `total_size` bytes that a range
/// request asks for, the end clipped to the file. The file must not be empty
/// and the start must not lie after the clipped end.
pub fn plan_range(start: u64, end: Option<u64>, total_size: u64) -> (p: RangePlan)
    requires
        total_size > 0,
        start <= range_end_spec(end, total_size),
    ensures
        p.start == start,
        p.end == range_end_spec(end, total_size),
        p.length == p.end - start + 1,
{
    let last = total_size - 1;
    let e = match end {
        Some(e) => if e < last { e } else { last },
        None => last,
    };
    RangePlan { start, end: e, length: e - start + 1 }
}

/// `bytes <start>-<end>/<total>`, the value of a `Content-Range` header.
pub open spec fn content_range_spec(start: u64, end: u64, total: u64) -> Seq<char> {
    "bytes "@ + decimal(start as nat) + "-"@ + decimal(end as nat) + "/"@ + decimal(total as nat)
}

/// The `Content-Range` header value for a planned range of a file.
pub fn content_range_value(plan: &RangePlan, total_size: u64) -> (s: String)
    ensures
        s@ == content_range_spec(plan.start, plan.end, total_size),
{
    let mut s = String::from_str("bytes ");
    let a = u64_to_decimal(plan.start);
    s.append(a.as_str());
    s.append("-");
    let b = u64_to_decimal(plan.end);
    s.append(b.as_str());
    s.append("/");
    let c = u64_to_decimal(total_size);
    s.append(c.as_str());
    s
}

/// How a file is answered: the status, the `Content-Length`, the
/// `Content-Range` where a range was asked for, where reading starts and how
/// many bytes the body holds at most (`None`: to the end of the file).
pub struct FileResponsePlan {
    pub status: u16,
    pub content_length: u64,
    pub content_range: Option<String>,
    pub seek_to: u64,
    pub body_limit: Option<u64>,
}

/// The answer to a request for a file of `total_size` bytes, given the
/// range it asks for: `200` with the whole file, or `206` with the bytes
/// `start..=end` (the end clipped to the file) and their `Content-Range`.
pub open spec fn file_response_spec(range: Option<(u64, Option<u64>)>, total_size: u64) -> (u16, u64, Option<Seq<char>>, u64, Option<u64>) {
    match range {
        None => (200u16, total_size, None, 0u64, None),
        Some((start, end)) => {
            let last = range_end_spec(end, total_size);
            let length = (last - start + 1) as u64;
            (206u16, length, Some(content_range_spec(start, last, total_size)), start, Some(length))
        },
    }
}

/// Plans the answer to a request for a file; see [`file_response_spec`]. A
/// range needs a non-empty file and a start no later than its clipped end.
pub fn file_response_plan(range: Option<(u64, Option<u64>)>, total_size: u64) -> (p: FileResponsePlan)
    requires
        range matches Some((start, end)) ==> total_size > 0 && start <= range_end_spec(end, total_size),
    ensures
        file_response_spec(range, total_size) == (
            p.status,
            p.content_length,
            match p.content_range { Some(c) => Some(c@), None => None::<Seq<char>> },
            p.seek_to,
            p.body_limit,
        ),
{
    match range {
        None => FileResponsePlan { status: 200, content_length: total_size, content_range: None, seek_to: 0, body_limit: None },
        Some((start, end)) => {
            let plan = plan_range(start, end, total_size);
            let cr = content_range_value(&plan, total_size);
            FileResponsePlan {
                status: 206,
                content_length: plan.length,
                content_range: Some(cr),
                seek_to: plan.start,
                body_limit: Some(plan.length),
            }
        },
    }
}

/// The extension of a file name as `Path::extension` gives it: the text after
/// the last `.`, except where there is no `.` or the only one starts the name.
pub open spec fn extension_spec(file_name: Seq<char>) -> Option<Seq<char>> {
    if !has_char(file_name, '.') {
        None
    } else {
        let k = choose|k: int| 0 <= k < file_name.len() && file_name[k] == '.' && !has_char(file_name.skip(k + 1), '.');
        if k == 0 {
            None
        } else {
            Some(file_name.skip(k + 1))
        }
    }
}

fn find_last_char(s: &[char], c: char) -> (r: Option<usize>)
    ensures
        match r {
            Some(k) => k < s@.len() && s@[k as int] == c && !has_char(s@.skip(k + 1), c),
            None => !has_char(s@, c),
        },
{
    let mut i: usize = s.len();
    while i > 0
        invariant
            i <= s@.len(),
            forall|j: int| i <= j < s@.len() ==> s@[j] != c,
        decreases i,
    {
        if s[i - 1] == c {
            proof {
                assert forall|j: int| 0 <= j < s@.skip(i as int).len() implies s@.skip(i as int)[j] != c by {
                    assert(s@.skip(i as int)[j] == s@[i + j]);
                }
            }
            return Some(i - 1);
        }
        i = i - 1;
    }
    None
}

/// The extension of a file name; see [`extension_spec`].
pub fn file_extension(file_name: &str) -> (r: Option<String>)
    ensures
        match r {
            Some(e) => extension_spec(file_name@) == Some(e@),
            None => extension_spec(file_name@) is None,
        },
{
    let f = chars_of(file_name);
    match find_last_char(f.as_slice(), '.') {
        None => None,
        Some(k) => {
            proof {
                let w = choose|w: int| 0 <= w < f@.len() && f@[w] == '.' && !has_char(f@.skip(w + 1), '.');
                if w < k {
                    assert(f@.skip(w + 1)[k - w - 1] == '.');
                } else if w > k {
                    assert(f@.skip(k + 1)[w - k - 1] == '.');
                }
            }
            let n = f.len();
            assert(k < n);
            if k == 0 {
                None
            } else {
                let e = slice_subrange(f.as_slice(), k + 1, f.len());
                assert(e@ =~= f@.skip(k + 1));
                Some(string_from_chars(e))
            }
        },
    }
}

/// The first media type that `mime_guess` lists for an extension.
pub uninterp spec fn mime_type_for_extension(ext: Seq<char>) -> Option<Seq<char>>;

/// `mime_guess::from_ext(ext).first()`, written as text. The contract claims
/// that the answer is a function of the extension alone, and, as the source
/// shows, that the empty extension has none.
#[verifier::external_body]
fn guess_mime_type(ext: &str) -> (r: Option<String>)
    ensures
        match r {
            Some(m) => mime_type_for_extension(ext@) == Some(m@),
            None => mime_type_for_extension(ext@) is None,
        },
        ext@.len() == 0 ==> r is None,
{
    mime_guess::from_ext(ext).first().map(|m| m.as_ref().to_string())
}

/// The media type a file is served with: the first one listed for its
/// extension, else `application/octet-stream`.
pub open spec fn content_type_spec(file_name: Seq<char>) -> Seq<char> {
    match extension_spec(file_name) {
        Some(e) => match mime_type_for_extension(e) {
            Some(m) => m,
            None => "application/octet-stream"@,
        },
        None => "application/octet-stream"@,
    }
}

/// The media type a file is served with; see [`content_type_spec`].
pub fn content_type_for(file_name: &str) -> (r: String)
    ensures
        r@ == content_type_spec(file_name@),
{
    match file_extension(file_name) {
        Some(e) => match guess_mime_type(e.as_str()) {
            Some(m) => m,
            None => String::from_str("application/octet-stream"),
        },
        None => String::from_str("application/octet-stream"),
    }
}

/// The value of an ASCII hexadecimal digit byte.
pub open spec fn hex_digit_value(b: u8) -> Option<u8> {
    if 48 <= b <= 57 {
        Some((b - 48) as u8)
    } else if 97 <= b <= 102 {
        Some((b - 87) as u8)
    } else if 65 <= b <= 70 {
        Some((b - 55) as u8)
    } else {
        None
    }
}

/// Percent-decoding of bytes: `%` and two hex digits give the byte they
/// write; every other byte, a lone `%` too, stays as it is.
pub open spec fn percent_decode_bytes(b: Seq<u8>) -> Seq<u8>
    decreases b.len(),
{
    if b.len() == 0 {
        Seq::empty()
    } else if b[0] == 37 && b.len() >= 3 && hex_digit_value(b[1]) is Some && hex_digit_value(b[2]) is Some {
        seq![(hex_digit_value(b[1]).unwrap() * 16 + hex_digit_value(b[2]).unwrap()) as u8] + percent_decode_bytes(b.skip(3))
    } else {
        seq![b[0]] + percent_decode_bytes(b.skip(1))
    }
}

/// The text that `s` percent-decodes to, where the decoded bytes are UTF-8.
pub open spec fn percent_decode_spec(s: Seq<char>) -> Option<Seq<char>> {
    let d = percent_decode_bytes(encode_utf8(s));
    if valid_utf8(d) {
        Some(decode_utf8(d))
    } else {
        None
    }
}

/// `percent_encoding::percent_decode_str(s).decode_utf8()`. The contract
/// states what the crate's source does: decode `%XY` escapes byte by byte,
/// then read the bytes as UTF-8.
#[verifier::external_body]
pub(crate) fn percent_decode_utf8(s: &str) -> (r: Option<String>)
    ensures
        match r {
            Some(t) => percent_decode_spec(s@) == Some(t@),
            None => percent_decode_spec(s@) is None,
        },
{
    percent_encoding::percent_decode_str(s).decode_utf8().ok().map(|c| c.into_owned())
}

/// The part of a request path that is joined onto the served folder: the
/// path without one leading `/`.
pub open spec fn request_component_spec(path: Seq<char>) -> Seq<char> {
    if path.len() > 0 && path[0] == '/' {
        path.skip(1)
    } else {
        path
    }
}

/// The part of a request path that is joined onto the served folder.
pub fn request_component(path: &str) -> (r: String)
    ensures
        r@ == request_component_spec(path@),
{
    let p = chars_of(path);
    if p.len() > 0 && p[0] == '/' {
        let rest = slice_subrange(p.as_slice(), 1, p.len());
        assert(rest@ =~= p@.skip(1));
        string_from_chars(rest)
    } else {
        String::from_str(path)
    }
}

/// A canonical path lies within the canonical folder `base`: it is `base`,
/// or continues `base` after a `/` (component-wise `Path::starts_with`).
pub open spec fn within_folder(base: Seq<char>, path: Seq<char>) -> bool {
    path == base
        || (seq_starts_with(path, base) && base.len() > 0 && base.last() == '/')
        || (seq_starts_with(path, base) && path.len() > base.len() && path[base.len() as int] == '/')
}

/// Whether a canonical path lies within the served folder; see
/// [`within_folder`].
pub fn path_within_folder(base: &str, path: &str) -> (b: bool)
    ensures
        b == within_folder(base@, path@),
{
    let bb = chars_of(base);
    let pp = chars_of(path);
    if chars_eq(bb.as_slice(), pp.as_slice()) {
        return true;
    }
    if bb.len() > pp.len() {
        return false;
    }
    let head = slice_subrange(pp.as_slice(), 0, bb.len());
    if !chars_eq(head, bb.as_slice()) {
        assert(!seq_starts_with(pp@, bb@));
        return false;
    }
    assert(seq_starts_with(pp@, bb@));
    if bb.len() > 0 && bb[bb.len() - 1] == '/' {
        return true;
    }
    pp.len() > bb.len() && pp[bb.len()] == '/'
}

/// Joining a relative path onto `base` on Unix (`Path::join`): an absolute
/// `p` (one that starts with `/`) replaces `base`; otherwise `p` follows
/// `base`, after a `/` unless `base` is empty or already ends in one.
pub open spec fn path_join_spec(base: Seq<char>, p: Seq<char>) -> Seq<char> {
    if p.len() > 0 && p[0] == '/' {
        p
    } else if base.len() > 0 && base.last() != '/' {
        base + seq!['/'] + p
    } else {
        base + p
    }
}

/// The path that a request for `o_path` names under the folder `base`,
/// before it is made canonical: `base` joined with `o_path` without one
/// leading `/`.
pub fn join_target(base: &str, o_path: &str) -> (r: String)
    ensures
        r@ == path_join_spec(base@, request_component_spec(o_path@)),
{
    let c = request_component(o_path);
    let cc = chars_of(c.as_str());
    if cc.len() > 0 && cc[0] == '/' {
        return c;
    }
    let bb = chars_of(base);
    let mut v: Vec<char> = Vec::new();
    push_text(&mut v, base);
    if bb.len() > 0 && bb[bb.len() - 1] != '/' {
        v.push('/');
    }
    push_text(&mut v, c.as_str());
    proof {
        if bb@.len() > 0 && bb@.last() != '/' {
            assert(v@ =~= base@ + seq!['/'] + c@);
        } else {
            assert(v@ =~= base@ + c@);
        }
    }
    string_from_chars(v.as_slice())
}

/// What a request resolves to, given the canonical form of its joined path
/// (or the error of making it canonical): that path where it lies within the
/// folder, the error `oops` where it lies outside, the error as it came
/// where there was none to be had.
pub open spec fn join_path_spec(base: Seq<char>, canonical: Result<Seq<char>, Seq<char>>) -> Result<Seq<char>, Seq<char>> {
    match canonical {
        Err(e) => Err(e),
        Ok(p) => if within_folder(base, p) {
            Ok(p)
        } else {
            Err("oops"@)
        },
    }
}

/// Resolves a request under the canonical folder `base` from the canonical
/// form of its joined path (see [`join_target`]); see [`join_path_spec`].
/// A path that comes back lies within the folder.
pub fn join_path(base: &str, canonical: Result<String, String>) -> (r: Result<String, String>)
    ensures
        r is Ok ==> within_folder(base@, r->Ok_0@) && canonical == Ok::<String, String>(r->Ok_0),
        match r {
            Ok(p) => join_path_spec(base@, match canonical { Ok(c) => Ok(c@), Err(e) => Err(e@) }) == Ok::<Seq<char>, Seq<char>>(p@),
            Err(e) => join_path_spec(base@, match canonical { Ok(c) => Ok(c@), Err(e) => Err(e@) }) == Err::<Seq<char>, Seq<char>>(e@),
        },
{
    match canonical {
        Err(e) => Err(e),
        Ok(p) => if path_within_folder(base, p.as_str()) {
            Ok(p)
        } else {
            Err(String::from_str("oops"))
        },
    }
}

proof fn lemma_decimal_digits(n: nat)
    ensures
        all_ascii_digits(decimal(n)),
        digits_value(decimal(n)) == n,
        decimal(n).len() > 0,
        decimal(n)[0] != '+',
        !has_char(decimal(n), '-'),
    decreases n,
{
    if n >= 10 {
        lemma_decimal_digits(n / 10);
        let d = decimal(n / 10);
        let e = d.push(digit_char(n % 10));
        assert(e.drop_last() =~= d);
        assert forall|i: int| 0 <= i < e.len() implies is_ascii_digit(#[trigger] e[i]) by {
            if i < d.len() {
                assert(e[i] == d[i]);
            }
        }
        assert(!has_char(e, '-')) by {
            if has_char(e, '-') {
                let i = choose|i: int| 0 <= i < e.len() && e[i] == '-';
                if i < d.len() {
                    assert(e[i] == d[i]);
                }
            }
        }
        assert(e[0] == d[0]);
        assert(digits_value(e) == digits_value(d) * 10 + ((digit_char(n % 10) as nat) - ('0' as nat)) as nat);
        assert((digit_char(n % 10) as nat) == ('0' as nat) + n % 10);
        assert(n == (n / 10) * 10 + n % 10);
        assert(digits_value(d) == n / 10);
        assert(decimal(n) == e);
        assert(digits_value(e) == n);
    } else {
        assert(decimal(n).drop_last() =~= Seq::<char>::empty());
        assert((digit_char(n) as nat) == ('0' as nat) + n);
        assert(digits_value(decimal(n)) == digits_value(Seq::<char>::empty()) * 10 + ((digit_char(n) as nat) - ('0' as nat)) as nat);
    }
}

proof fn lemma_parse_decimal(n: u64)
    ensures
        parse_u64_spec(decimal(n as nat)) == Some(n),
{
    lemma_decimal_digits(n as nat);
}

/// `a` is a non-empty piece without `-` that `u64` parses as `n`.
pub open spec fn dash_free_number(a: Seq<char>, n: u64) -> bool {
    a.len() > 0 && !has_char(a, '-') && parse_u64_spec(a) == Some(n)
}

/// `h` is `bytes=S-E` for pieces `S` and `E` that read as `s` and `e`.
pub open spec fn closed_range_form(h: Seq<char>, s: u64, e: u64) -> bool {
    exists|a: Seq<char>, b: Seq<char>|
        #![trigger dash_free_number(a, s), dash_free_number(b, e)]
        dash_free_number(a, s) && dash_free_number(b, e) && h == bytes_prefix() + a + seq!['-'] + b
}

/// `h` is `bytes=S-` or `bytes=S` for a piece `S` that reads as `s`.
pub open spec fn open_range_form(h: Seq<char>, s: u64) -> bool {
    exists|a: Seq<char>|
        #![trigger dash_free_number(a, s)]
        dash_free_number(a, s) && (h == bytes_prefix() + a + seq!['-'] || h == bytes_prefix() + a)
}

/// Two pieces without `-` joined by one `-` hold exactly that one `-`.
proof fn lemma_single_dash(a: Seq<char>, b: Seq<char>)
    requires
        !has_char(a, '-'),
        !has_char(b, '-'),
    ensures
        char_count(a + seq!['-'] + b, '-') == 1,
        forall|k: int| 0 <= k < (a + seq!['-'] + b).len() && (a + seq!['-'] + b)[k] == '-' ==> k == a.len(),
        (a + seq!['-'] + b).subrange(0, a.len() as int) == a,
        (a + seq!['-'] + b).subrange(a.len() as int + 1, (a + seq!['-'] + b).len() as int) == b,
{
    let v = a + seq!['-'] + b;
    let k = a.len() as int;
    assert(v.take(k) =~= a);
    assert(v.skip(k) =~= seq!['-'] + b);
    lemma_char_count_split(v, '-', k);
    lemma_char_count_zero(a, '-');
    lemma_char_count_split(v.skip(k), '-', 1);
    assert(v.skip(k).take(1) =~= seq!['-']);
    let one = seq!['-'];
    assert(one.drop_last() =~= Seq::<char>::empty());
    assert(char_count(Seq::<char>::empty(), '-') == 0);
    assert(one.last() == '-');
    assert(char_count(one, '-') == 1);
    assert(v.skip(k).skip(1) =~= b);
    lemma_char_count_zero(b, '-');
    assert forall|j: int| 0 <= j < v.len() && v[j] == '-' implies j == k by {
        if j < k {
            assert(a[j] == '-');
        } else if j > k {
            assert(b[j - k - 1] == '-');
        }
    }
    assert(v.subrange(0, k) =~= a);
    assert(v.subrange(k + 1, v.len() as int) =~= b);
}

/// A piece with exactly one `-`, at `k`, is the dash-free part before it,
/// the `-`, and the dash-free part after it.
proof fn lemma_dash_split(v: Seq<char>, k: int)
    requires
        char_count(v, '-') == 1,
        0 <= k < v.len(),
        v[k] == '-',
    ensures
        !has_char(v.subrange(0, k), '-'),
        !has_char(v.subrange(k + 1, v.len() as int), '-'),
        v == v.subrange(0, k) + seq!['-'] + v.subrange(k + 1, v.len() as int),
{
    lemma_char_count_split(v, '-', k);
    lemma_char_count_split(v.skip(k), '-', 1);
    assert(v.skip(k).take(1) =~= seq!['-']);
    let one = seq!['-'];
    assert(one.drop_last() =~= Seq::<char>::empty());
    assert(char_count(Seq::<char>::empty(), '-') == 0);
    assert(one.last() == '-');
    assert(char_count(one, '-') == 1);
    assert(v.take(k) =~= v.subrange(0, k));
    assert(v.skip(k).skip(1) =~= v.subrange(k + 1, v.len() as int));
    lemma_char_count_zero(v.subrange(0, k), '-');
    lemma_char_count_zero(v.subrange(k + 1, v.len() as int), '-');
    assert(v =~= v.subrange(0, k) + seq!['-'] + v.subrange(k + 1, v.len() as int));
}

proof fn lemma_closed_form_reads(h: Seq<char>, s: u64, e: u64)
    requires
        closed_range_form(h, s, e),
    ensures
        range_spec(h) == Some((s, Some(e))),
{
    let (a, b) = choose|a: Seq<char>, b: Seq<char>|
        #![trigger dash_free_number(a, s), dash_free_number(b, e)]
        dash_free_number(a, s) && dash_free_number(b, e) && h == bytes_prefix() + a + seq!['-'] + b;
    assert(h.subrange(0, 6) =~= bytes_prefix());
    assert(seq_starts_with(h, bytes_prefix()));
    let v = h.subrange(6, h.len() as int);
    assert(v =~= a + seq!['-'] + b);
    lemma_single_dash(a, b);
    assert(v[a.len() as int] == '-');
    let k = choose|k: int| 0 <= k < v.len() && v[k] == '-';
    assert(k == a.len());
    assert(v.subrange(0, k) == a);
    assert(v.subrange(k + 1, v.len() as int) == b);
}

proof fn lemma_open_form_reads(h: Seq<char>, s: u64)
    requires
        open_range_form(h, s),
    ensures
        range_spec(h) == Some((s, None::<u64>)),
{
    let a = choose|a: Seq<char>|
        #![trigger dash_free_number(a, s)]
        dash_free_number(a, s) && (h == bytes_prefix() + a + seq!['-'] || h == bytes_prefix() + a);
    assert(h.subrange(0, 6) =~= bytes_prefix());
    let v = h.subrange(6, h.len() as int);
    if h == bytes_prefix() + a + seq!['-'] {
        let empty = Seq::<char>::empty();
        assert(v =~= a + seq!['-'] + empty);
        assert(!has_char(empty, '-'));
        lemma_single_dash(a, empty);
    } else {
        assert(v =~= a);
        lemma_char_count_zero(a, '-');
    }
}

proof fn lemma_range_reads_form(h: Seq<char>, s: u64, e: u64)
    ensures
        range_spec(h) == Some((s, Some(e))) ==> closed_range_form(h, s, e),
        range_spec(h) == Some((s, None::<u64>)) ==> open_range_form(h, s),
{
    if range_spec(h) == Some((s, Some(e))) || range_spec(h) == Some((s, None::<u64>)) {
        let v = h.subrange(6, h.len() as int);
        assert(h =~= bytes_prefix() + v);
        lemma_char_count_zero(v, '-');
        if char_count(v, '-') == 0 {
            assert(dash_free_number(v, s));
        } else {
            let k = choose|k: int| 0 <= k < v.len() && v[k] == '-';
            lemma_dash_split(v, k);
            let a = v.subrange(0, k);
            let b = v.subrange(k + 1, v.len() as int);
            if b.len() == 0 {
                assert(v =~= a + seq!['-']);
                assert(h =~= bytes_prefix() + a + seq!['-']);
                assert(dash_free_number(a, s));
            } else {
                assert(h =~= bytes_prefix() + a + seq!['-'] + b);
                assert(dash_free_number(a, s) && dash_free_number(b, e));
            }
        }
    }
}

proof fn lemma_range_forms(h: Seq<char>, s: u64, e: u64)
    ensures
        (range_spec(h) == Some((s, Some(e)))) <==> closed_range_form(h, s, e),
        (range_spec(h) == Some((s, None::<u64>))) <==> open_range_form(h, s),
{
    lemma_range_reads_form(h, s, e);
    if closed_range_form(h, s, e) {
        lemma_closed_form_reads(h, s, e);
    }
    if open_range_form(h, s) {
        lemma_open_form_reads(h, s);
    }
}

/// The grammar of a `Range` header value: `bytes=S-E` with non-empty
/// dash-free numbers `S` and `E` gives `(S, Some(E))`; `bytes=S-` or
/// `bytes=S` gives `(S, None)`; every other value gives `None`.
pub proof fn law_range_grammar(h: Seq<char>, s: u64, e: u64)
    ensures
        (range_spec(h) == Some((s, Some(e)))) <==> closed_range_form(h, s, e),
        (range_spec(h) == Some((s, None::<u64>))) <==> open_range_form(h, s),
        (range_spec(h) is None) <==> (
            !(exists|s2: u64, e2: u64| closed_range_form(h, s2, e2))
            && !(exists|s2: u64| open_range_form(h, s2))),
{
    lemma_range_forms(h, s, e);
    match range_spec(h) {
        Some((x, Some(y))) => {
            lemma_range_forms(h, x, y);
        },
        Some((x, None)) => {
            lemma_range_forms(h, x, 0);
        },
        None => {
            assert forall|s2: u64, e2: u64| !closed_range_form(h, s2, e2) by {
                lemma_range_forms(h, s2, e2);
            }
            assert forall|s2: u64| !open_range_form(h, s2) by {
                lemma_range_forms(h, s2, 0);
            }
        },
    }
}

/// A `Range` header written from two numbers reads back as those numbers.
pub proof fn law_range_header_round_trip(start: u64, end: u64)
    ensures
        range_spec(bytes_prefix() + decimal(start as nat) + seq!['-'] + decimal(end as nat)) == Some((start, Some(end))),
{
    let a = decimal(start as nat);
    let b = decimal(end as nat);
    lemma_decimal_digits(start as nat);
    lemma_decimal_digits(end as nat);
    lemma_parse_decimal(start);
    lemma_parse_decimal(end);
    assert(dash_free_number(a, start) && dash_free_number(b, end));
    lemma_closed_form_reads(bytes_prefix() + a + seq!['-'] + b, start, end);
}

/// One entry of a folder page: a file or a sub-folder, by name and by its
/// path relative to the served folder.
pub struct FolderEntry {
    pub is_folder: bool,
    pub name: String,
    pub path: String,
}

/// The entry for a file named `name` at `path` in the folder served at `base`.
pub fn show_file(name: &str, path: &str, base: &str) -> (e: FolderEntry)
    ensures
        !e.is_folder,
        e.name@ == name@,
        e.path@ == remove_all(path@, base@),
{
    FolderEntry { is_folder: false, name: String::from_str(name), path: relative_path(path, base) }
}

/// The entry for a sub-folder named `name` at `path` in the folder served at
/// `base`.
pub fn show_folder(name: &str, path: &str, base: &str) -> (e: FolderEntry)
    ensures
        e.is_folder,
        e.name@ == name@,
        e.path@ == remove_all(path@, base@),
{
    FolderEntry { is_folder: true, name: String::from_str(name), path: relative_path(path, base) }
}

/// The message for a folder to serve that is missing or is not a folder,
/// where `path_debug` is the path as `{:?}` writes it.
pub open spec fn validate_path_spec(path_debug: Seq<char>, path_exists: bool, is_dir: bool) -> Option<Seq<char>> {
    if !path_exists {
        Some(path_debug + " doesn't exist"@)
    } else if !is_dir {
        Some(path_debug + " is not a directory"@)
    } else {
        None
    }
}

/// Checks that the folder to serve exists and is a folder.
pub fn validate_path(path_debug: &str, path_exists: bool, is_dir: bool) -> (r: Result<(), String>)
    ensures
        match r {
            Ok(()) => validate_path_spec(path_debug@, path_exists, is_dir) is None,
            Err(m) => validate_path_spec(path_debug@, path_exists, is_dir) == Some(m@),
        },
{
    if !path_exists || !is_dir {
        let mut m: Vec<char> = Vec::new();
        push_text(&mut m, path_debug);
        if !path_exists {
            push_text(&mut m, " doesn't exist");
        } else {
            push_text(&mut m, " is not a directory");
        }
        return Err(string_from_chars(m.as_slice()));
    }
    Ok(())
}


/// The part of a request's path that is joined onto the served folder,
/// after percent-decoding it; `None` where the decoded bytes are not UTF-8.
pub fn decoded_request_component(path: &str) -> (r: Option<String>)
    ensures
        match r {
            Some(c) => percent_decode_spec(path@) matches Some(d) && c@ == request_component_spec(d),
            None => percent_decode_spec(path@) is None,
        },
{
    match percent_decode_utf8(path) {
        Some(d) => Some(request_component(d.as_str())),
        None => None,
    }
}

/// The path that a request names under the folder `base`, before it is made
/// canonical: the percent-decoded request path joined onto `base` (see
/// [`join_target`]); `None` where the decoded path is not UTF-8.
pub fn request_target(base: &str, uri_path: &str) -> (r: Option<String>)
    ensures
        match r {
            Some(t) => percent_decode_spec(uri_path@) matches Some(d) && t@ == path_join_spec(base@, request_component_spec(d)),
            None => percent_decode_spec(uri_path@) is None,
        },
{
    match percent_decode_utf8(uri_path) {
        Some(d) => Some(join_target(base, d.as_str())),
        None => None,
    }
}

} // verus!
