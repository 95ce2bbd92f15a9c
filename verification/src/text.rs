//! Character-level text operations shared by the library, with their
//! specifications over `Seq<char>`.

use vstd::prelude::*;

verus! {

/// `needle` occurs in `hay` starting at position `i`.
pub open spec fn occurs_at(hay: Seq<char>, needle: Seq<char>, i: int) -> bool {
    0 <= i && i + needle.len() <= hay.len() && hay.subrange(i, i + needle.len()) =~= needle
}

/// `needle` occurs somewhere in `hay` (the empty text occurs everywhere).
pub open spec fn seq_contains(hay: Seq<char>, needle: Seq<char>) -> bool {
    exists|i: int| occurs_at(hay, needle, i)
}

/// `c` occurs in `s`.
pub open spec fn has_char(s: Seq<char>, c: char) -> bool {
    exists|i: int| 0 <= i < s.len() && s[i] == c
}

/// `i` is the first position at which `needle` occurs in `hay`.
pub open spec fn is_first_occurrence(hay: Seq<char>, needle: Seq<char>, i: int) -> bool {
    occurs_at(hay, needle, i) && forall|j: int| 0 <= j < i ==> !occurs_at(hay, needle, j)
}

/// `s` starts with `p`.
pub open spec fn seq_starts_with(s: Seq<char>, p: Seq<char>) -> bool {
    p.len() <= s.len() && s.subrange(0, p.len() as int) =~= p
}

/// The characters of a string slice.
pub fn chars_of(s: &str) -> (v: Vec<char>)
    ensures
        v@ == s@,
{
    let n = s.unicode_len();
    let mut v: Vec<char> = Vec::new();
    let mut i: usize = 0;
    while i < n
        invariant
            n == s@.len(),
            i <= n,
            v@ =~= s@.subrange(0, i as int),
        decreases n - i,
    {
        let c = s.get_char(i);
        v.push(c);
        i = i + 1;
    }
    v
}

/// A string made of the given characters, in order.
#[verifier::external_body]
pub(crate) fn string_from_chars(v: &[char]) -> (s: String)
    ensures
        s@ == v@,
{
    v.iter().collect::<String>()
}

/// Whether `needle` occurs in `hay` at position `i`.
pub fn occurs_at_exec(hay: &[char], needle: &[char], i: usize) -> (b: bool)
    ensures
        b == occurs_at(hay@, needle@, i as int),
{
    if needle.len() > hay.len() || i > hay.len() - needle.len() {
        return false;
    }
    let mut k: usize = 0;
    while k < needle.len()
        invariant
            hay@.len() == hay.len(),
            needle@.len() == needle.len(),
            i + needle@.len() <= hay@.len(),
            k <= needle@.len(),
            forall|j: int| 0 <= j < k ==> hay@[i + j] == needle@[j],
        decreases needle.len() - k,
    {
        if hay[i + k] != needle[k] {
            assert(hay@.subrange(i as int, i + needle@.len())[k as int] != needle@[k as int]);
            return false;
        }
        k = k + 1;
    }
    assert(hay@.subrange(i as int, i + needle@.len()) =~= needle@);
    true
}

/// The first position at which `needle` occurs in `hay`.
pub fn find_first(hay: &[char], needle: &[char]) -> (r: Option<usize>)
    ensures
        r matches Some(i) ==> is_first_occurrence(hay@, needle@, i as int),
        r is None ==> !seq_contains(hay@, needle@),
{
    if needle.len() > hay.len() {
        return None;
    }
    let last = hay.len() - needle.len();
    let mut i: usize = 0;
    while i < last
        invariant
            i <= last,
            last == hay@.len() - needle@.len(),
            forall|j: int| 0 <= j < i ==> !occurs_at(hay@, needle@, j),
        decreases last - i,
    {
        if occurs_at_exec(hay, needle, i) {
            return Some(i);
        }
        i = i + 1;
    }
    if occurs_at_exec(hay, needle, last) {
        return Some(last);
    }
    assert forall|j: int| !occurs_at(hay@, needle@, j) by {
        if 0 <= j <= last {
        }
    }
    None
}

/// Whether two character slices are equal.
pub fn chars_eq(a: &[char], b: &[char]) -> (r: bool)
    ensures
        r == (a@ == b@),
{
    if a.len() != b.len() {
        return false;
    }
    let mut i: usize = 0;
    while i < a.len()
        invariant
            a@.len() == b@.len(),
            i <= a@.len(),
            forall|j: int| 0 <= j < i ==> a@[j] == b@[j],
        decreases a.len() - i,
    {
        if a[i] != b[i] {
            return false;
        }
        i = i + 1;
    }
    assert(a@ =~= b@);
    true
}

/// Whether two strings are equal.
pub fn str_eq(a: &str, b: &str) -> (r: bool)
    ensures
        r == (a@ == b@),
{
    let x = chars_of(a);
    let y = chars_of(b);
    chars_eq(x.as_slice(), y.as_slice())
}

/// Whether `needle` occurs in `hay`.
pub fn str_contains(hay: &str, needle: &str) -> (b: bool)
    ensures
        b == seq_contains(hay@, needle@),
{
    let h = chars_of(hay);
    let n = chars_of(needle);
    match find_first(h.as_slice(), n.as_slice()) {
        Some(i) => {
            assert(occurs_at(h@, n@, i as int));
            true
        },
        None => false,
    }
}

/// Whether the character `c` occurs in `s`.
pub fn str_has_char(s: &str, c: char) -> (b: bool)
    ensures
        b == has_char(s@, c),
{
    let v = chars_of(s);
    let mut i: usize = 0;
    while i < v.len()
        invariant
            v@ == s@,
            forall|j: int| 0 <= j < i ==> v@[j] != c,
        decreases v.len() - i,
    {
        if v[i] == c {
            return true;
        }
        i = i + 1;
    }
    false
}

/// The ASCII digit for `d` (`d < 10`).
pub open spec fn digit_char(d: nat) -> char {
    if d == 0 { '0' } else if d == 1 { '1' } else if d == 2 { '2' } else if d == 3 { '3' }
    else if d == 4 { '4' } else if d == 5 { '5' } else if d == 6 { '6' } else if d == 7 { '7' }
    else if d == 8 { '8' } else { '9' }
}

/// The decimal notation of `n`, without sign or leading zeros.
pub open spec fn decimal(n: nat) -> Seq<char>
    decreases n,
{
    if n < 10 {
        seq![digit_char(n)]
    } else {
        decimal(n / 10).push(digit_char(n % 10))
    }
}

fn push_decimal(v: &mut Vec<char>, n: u64)
    ensures
        final(v)@ == old(v)@ + decimal(n as nat),
    decreases n,
{
    if n >= 10 {
        push_decimal(v, n / 10);
    }
    let d: u8 = (n % 10) as u8;
    let c: char = (48u8 + d) as char;
    assert(c == digit_char((n % 10) as nat));
    v.push(c);
    assert(v@ =~= old(v)@ + decimal(n as nat));
}

/// The decimal notation of `n`, as the `Display` of integers writes it.
pub fn u64_to_decimal(n: u64) -> (s: String)
    ensures
        s@ == decimal(n as nat),
{
    let mut v: Vec<char> = Vec::new();
    push_decimal(&mut v, n);
    assert(v@ =~= decimal(n as nat));
    string_from_chars(v.as_slice())
}

/// `c` is an ASCII decimal digit.
pub open spec fn is_ascii_digit(c: char) -> bool {
    '0' <= c && c <= '9'
}

/// Every character of `s` is an ASCII decimal digit.
pub open spec fn all_ascii_digits(s: Seq<char>) -> bool {
    forall|i: int| 0 <= i < s.len() ==> is_ascii_digit(#[trigger] s[i])
}

/// The number written by the digits `s`, most significant first.
pub open spec fn digits_value(s: Seq<char>) -> nat
    decreases s.len(),
{
    if s.len() == 0 {
        0
    } else {
        digits_value(s.drop_last()) * 10 + ((s.last() as nat) - ('0' as nat)) as nat
    }
}

/// What `str::parse::<u64>` gives: an optional `+` followed by at least one
/// ASCII digit, whose value fits in a `u64`.
pub open spec fn parse_u64_spec(s: Seq<char>) -> Option<u64> {
    let d = if s.len() > 0 && s[0] == '+' { s.drop_first() } else { s };
    if d.len() > 0 && all_ascii_digits(d) && digits_value(d) <= u64::MAX {
        Some(digits_value(d) as u64)
    } else {
        None
    }
}

proof fn lemma_digits_value_prefix_grows(s: Seq<char>, i: int)
    requires
        all_ascii_digits(s),
        0 <= i <= s.len(),
    ensures
        digits_value(s.take(i)) <= digits_value(s),
    decreases s.len() - i,
{
    if i < s.len() {
        lemma_digits_value_prefix_grows(s, i + 1);
        assert(s.take(i + 1).drop_last() =~= s.take(i));
        assert(is_ascii_digit(s[i]));
    } else {
        assert(s.take(i) =~= s);
    }
}

/// Parses a slice of characters as `str::parse::<u64>` does.
pub fn parse_u64_chars(s: &[char]) -> (r: Option<u64>)
    ensures
        r == parse_u64_spec(s@),
{
    let mut start: usize = 0;
    if s.len() > 0 && s[0] == '+' {
        start = 1;
    }
    let ghost d = if s@.len() > 0 && s@[0] == '+' { s@.drop_first() } else { s@ };
    assert(d =~= s@.subrange(start as int, s@.len() as int));
    if start >= s.len() {
        return None;
    }
    let mut value: u64 = 0;
    let mut i: usize = start;
    while i < s.len()
        invariant
            s@.len() == s.len(),
            start <= i <= s.len(),
            d =~= s@.subrange(start as int, s@.len() as int),
            d == (if s@.len() > 0 && s@[0] == '+' { s@.drop_first() } else { s@ }),
            d.len() > 0,
            all_ascii_digits(d.take(i - start)),
            value == digits_value(d.take(i - start)),
        decreases s.len() - i,
    {
        let c = s[i];
        if !('0' <= c && c <= '9') {
            assert(!all_ascii_digits(d)) by {
                assert(d[i - start] == c);
            }
            return None;
        }
        let digit: u64 = (c as u32 - 48u32) as u64;
        assert(d.take(i - start + 1).drop_last() =~= d.take(i - start));
        assert(d.take(i - start + 1).last() == c);
        if value > 1844674407370955161u64 || (value == 1844674407370955161u64 && digit > 5) {
            assert(digits_value(d.take(i - start + 1)) > u64::MAX) by (nonlinear_arith)
                requires
                    digits_value(d.take(i - start + 1)) == value * 10 + digit,
                    value > 1844674407370955161u64 || (value == 1844674407370955161u64 && digit > 5),
            ;
            proof {
                if all_ascii_digits(d) {
                    lemma_digits_value_prefix_grows(d, (i - start + 1) as int);
                }
            }
            return None;
        }
        value = value * 10 + digit;
        i = i + 1;
        assert(all_ascii_digits(d.take(i - start))) by {
            assert forall|k: int| 0 <= k < d.take(i - start).len() implies is_ascii_digit(#[trigger] d.take(i - start)[k]) by {
                if k < i - start - 1 {
                    assert(d.take(i - start)[k] == d.take(i - start - 1)[k]);
                }
            }
        }
    }
    assert(d.take(i - start) =~= d);
    Some(value)
}

/// `base.join(comp)` for Unix paths written as text: an absolute `comp`
/// replaces `base`; otherwise `comp` is appended after a `/` unless `base`
/// is empty or already ends with one.
pub open spec fn path_join(base: Seq<char>, comp: Seq<char>) -> Seq<char> {
    if comp.len() > 0 && comp[0] == '/' {
        comp
    } else if base.len() == 0 {
        comp
    } else if base.last() == '/' {
        base + comp
    } else {
        base + seq!['/'] + comp
    }
}

/// Joins a path component onto a path; see [`path_join`].
pub fn path_join_text(base: &str, comp: &str) -> (r: String)
    ensures
        r@ == path_join(base@, comp@),
{
    let b = chars_of(base);
    let c = chars_of(comp);
    if c.len() > 0 && c[0] == '/' {
        return String::from_str(comp);
    }
    if b.len() == 0 {
        return String::from_str(comp);
    }
    let mut r = String::from_str(base);
    if b[b.len() - 1] != '/' {
        r.append("/");
        proof { reveal_strlit("/"); }
        assert("/"@ =~= seq!['/']);
    }
    r.append(comp);
    r
}

/// The number of times `c` occurs in `s`.
pub open spec fn char_count(s: Seq<char>, c: char) -> nat
    decreases s.len(),
{
    if s.len() == 0 {
        0
    } else {
        char_count(s.drop_last(), c) + if s.last() == c { 1nat } else { 0nat }
    }
}

pub proof fn lemma_char_count_split(s: Seq<char>, c: char, i: int)
    requires
        0 <= i <= s.len(),
    ensures
        char_count(s, c) == char_count(s.take(i), c) + char_count(s.skip(i), c),
    decreases s.len(),
{
    if i == s.len() {
        assert(s.take(i) =~= s);
        assert(s.skip(i).len() == 0);
    } else {
        lemma_char_count_split(s.drop_last(), c, i);
        assert(s.drop_last().take(i) =~= s.take(i));
        assert(s.drop_last().skip(i) =~= s.skip(i).drop_last());
    }
}

pub proof fn lemma_char_count_zero(s: Seq<char>, c: char)
    ensures
        char_count(s, c) == 0 <==> !has_char(s, c),
    decreases s.len(),
{
    if s.len() > 0 {
        lemma_char_count_zero(s.drop_last(), c);
        if has_char(s.drop_last(), c) {
            let j = choose|j: int| 0 <= j < s.drop_last().len() && s.drop_last()[j] == c;
            assert(s[j] == c);
        }
        if has_char(s, c) && s.last() != c {
            let j = choose|j: int| 0 <= j < s.len() && s[j] == c;
            assert(s.drop_last()[j] == c);
        }
    }
}

/// The position of the first `c` in `s`, if any.
pub fn find_char(s: &[char], c: char) -> (r: Option<usize>)
    ensures
        match r {
            Some(i) => i < s@.len() && s@[i as int] == c && !has_char(s@.take(i as int), c),
            None => !has_char(s@, c),
        },
{
    let mut i: usize = 0;
    while i < s.len()
        invariant
            i <= s@.len(),
            forall|j: int| 0 <= j < i ==> s@[j] != c,
        decreases s.len() - i,
    {
        if s[i] == c {
            return Some(i);
        }
        i = i + 1;
    }
    None
}

/// How many times `c` occurs in `s`.
pub fn count_char(s: &[char], c: char) -> (n: usize)
    ensures
        n == char_count(s@, c),
{
    let mut n: usize = 0;
    let mut i: usize = 0;
    while i < s.len()
        invariant
            i <= s@.len(),
            n == char_count(s@.take(i as int), c),
            n <= i,
        decreases s.len() - i,
    {
        assert(s@.take(i + 1).drop_last() =~= s@.take(i as int));
        if s[i] == c {
            n = n + 1;
        }
        i = i + 1;
    }
    assert(s@.take(i as int) =~= s@);
    n
}

/// `s.replace(pat, "")`: the non-overlapping occurrences of `pat`, found
/// from the left, removed (an empty `pat` leaves `s` as it is).
pub open spec fn remove_all(s: Seq<char>, pat: Seq<char>) -> Seq<char>
    decreases s.len(),
{
    if pat.len() == 0 || s.len() < pat.len() {
        s
    } else if s.take(pat.len() as int) == pat {
        remove_all(s.skip(pat.len() as int), pat)
    } else {
        seq![s[0]] + remove_all(s.skip(1), pat)
    }
}

/// Removes every occurrence of `pat` from `s`; see [`remove_all`].
pub fn remove_all_text(s: &str, pat: &str) -> (r: String)
    ensures
        r@ == remove_all(s@, pat@),
{
    let v = chars_of(s);
    let p = chars_of(pat);
    if p.len() == 0 {
        return String::from_str(s);
    }
    let mut out: Vec<char> = Vec::new();
    let mut i: usize = 0;
    assert(v@.skip(0) =~= v@);
    while i < v.len()
        invariant
            v@ == s@,
            p@ == pat@,
            p@.len() > 0,
            i <= v@.len(),
            remove_all(s@, pat@) == out@ + remove_all(v@.skip(i as int), pat@),
        decreases v.len() - i,
    {
        let ghost t = v@.skip(i as int);
        if p.len() <= v.len() - i && occurs_at_exec(v.as_slice(), p.as_slice(), i) {
            assert(t.take(p@.len() as int) =~= v@.subrange(i as int, i + p@.len()));
            assert(t.skip(p@.len() as int) =~= v@.skip(i + p@.len()));
            i = i + p.len();
        } else {
            proof {
                if p@.len() <= t.len() {
                    assert(t.take(p@.len() as int) =~= v@.subrange(i as int, i + p@.len()));
                }
            }
            assert(t.skip(1) =~= v@.skip(i + 1));
            let ghost before = out@;
            out.push(v[i]);
            assert(out@ + remove_all(v@.skip(i + 1), pat@) =~= before + (seq![t[0]] + remove_all(t.skip(1), pat@)));
            proof {
                if t.len() < p@.len() {
                    assert(remove_all(t.skip(1), pat@) =~= t.skip(1)) by {
                        assert(t.skip(1).len() < p@.len());
                    }
                    assert(remove_all(t, pat@) =~= seq![t[0]] + t.skip(1));
                }
            }
            i = i + 1;
        }
    }
    assert(v@.skip(i as int).len() == 0);
    assert(out@ + remove_all(v@.skip(i as int), pat@) =~= out@);
    string_from_chars(out.as_slice())
}


/// Appends the characters of `s` to `v`.
pub fn push_text(v: &mut Vec<char>, s: &str)
    ensures
        final(v)@ == old(v)@ + s@,
{
    let n = s.unicode_len();
    let mut i: usize = 0;
    let ghost start = v@;
    while i < n
        invariant
            n == s@.len(),
            i <= n,
            v@ =~= start + s@.subrange(0, i as int),
        decreases n - i,
    {
        let c = s.get_char(i);
        v.push(c);
        i = i + 1;
    }
    assert(s@.subrange(0, n as int) =~= s@);
}

/// Appends the decimal notation of `n` to `v`.
pub fn push_number(v: &mut Vec<char>, n: u64)
    ensures
        final(v)@ == old(v)@ + decimal(n as nat),
{
    push_decimal(v, n);
}


/// `c` has the Unicode `White_Space` property, as `char::is_whitespace`
/// documents it.
pub open spec fn is_unicode_whitespace(c: char) -> bool {
    ('\u{9}' <= c && c <= '\u{d}') || c == ' ' || c == '\u{85}' || c == '\u{a0}' || c == '\u{1680}'
        || ('\u{2000}' <= c && c <= '\u{200a}') || c == '\u{2028}' || c == '\u{2029}' || c == '\u{202f}'
        || c == '\u{205f}' || c == '\u{3000}'
}

/// Whether `c` is white space; see [`is_unicode_whitespace`].
pub fn is_whitespace_char(c: char) -> (b: bool)
    ensures
        b == is_unicode_whitespace(c),
{
    ('\u{9}' <= c && c <= '\u{d}') || c == ' ' || c == '\u{85}' || c == '\u{a0}' || c == '\u{1680}'
        || ('\u{2000}' <= c && c <= '\u{200a}') || c == '\u{2028}' || c == '\u{2029}' || c == '\u{202f}'
        || c == '\u{205f}' || c == '\u{3000}'
}

/// The number of white-space characters at the start of `s`.
pub open spec fn leading_ws(s: Seq<char>) -> nat
    decreases s.len(),
{
    if s.len() == 0 || !is_unicode_whitespace(s[0]) {
        0
    } else {
        1 + leading_ws(s.drop_first())
    }
}

/// The number of white-space characters at the end of `s`.
pub open spec fn trailing_ws(s: Seq<char>) -> nat
    decreases s.len(),
{
    if s.len() == 0 || !is_unicode_whitespace(s.last()) {
        0
    } else {
        1 + trailing_ws(s.drop_last())
    }
}

/// `s` without its leading white space.
pub open spec fn trim_start_spec(s: Seq<char>) -> Seq<char> {
    s.skip(leading_ws(s) as int)
}

/// `s` without leading and trailing white space, as `str::trim` gives it.
pub open spec fn trim_spec(s: Seq<char>) -> Seq<char> {
    let t = trim_start_spec(s);
    t.take(t.len() - trailing_ws(t))
}

/// Counts the white space at the start of `s`.
pub fn count_leading_ws(s: &[char]) -> (n: usize)
    ensures
        n == leading_ws(s@),
        n <= s@.len(),
{
    let mut i: usize = 0;
    assert(s@.skip(0) =~= s@);
    while i < s.len() && is_whitespace_char(s[i])
        invariant
            i <= s@.len(),
            leading_ws(s@) == i + leading_ws(s@.skip(i as int)),
        decreases s.len() - i,
    {
        assert(s@.skip(i as int).drop_first() =~= s@.skip(i + 1));
        i = i + 1;
    }
    i
}

fn count_trailing_ws(s: &[char]) -> (n: usize)
    ensures
        n == trailing_ws(s@),
        n <= s@.len(),
{
    let mut i: usize = 0;
    assert(s@.take(s@.len() as int) =~= s@);
    while i < s.len() && is_whitespace_char(s[s.len() - 1 - i])
        invariant
            i <= s@.len(),
            trailing_ws(s@) == i + trailing_ws(s@.take(s@.len() - i)),
        decreases s.len() - i,
    {
        assert(s@.take(s@.len() - i).drop_last() =~= s@.take(s@.len() - i - 1));
        assert(s@.take(s@.len() - i).last() == s@[s@.len() - 1 - i]);
        i = i + 1;
    }
    i
}

/// `s` without leading and trailing white space; see [`trim_spec`].
pub fn trim_text(s: &str) -> (r: String)
    ensures
        r@ == trim_spec(s@),
{
    let v = chars_of(s);
    let a = count_leading_ws(v.as_slice());
    let rest = vstd::slice::slice_subrange(v.as_slice(), a, v.len());
    assert(rest@ =~= trim_start_spec(s@));
    let b = count_trailing_ws(rest);
    let t = vstd::slice::slice_subrange(rest, 0, rest.len() - b);
    assert(t@ =~= trim_spec(s@));
    string_from_chars(t)
}


/// Where `c` occurs exactly once in `s`, its first occurrence is its only one.
pub proof fn lemma_single_occurrence(s: Seq<char>, c: char, pos: int, k: int)
    requires
        char_count(s, c) == 1,
        0 <= pos < s.len(),
        s[pos] == c,
        !has_char(s.take(pos), c),
        0 <= k < s.len(),
        s[k] == c,
    ensures
        k == pos,
{
    lemma_char_count_split(s, c, pos);
    lemma_char_count_zero(s.take(pos), c);
    lemma_char_count_split(s.skip(pos), c, 1);
    assert(s.skip(pos).take(1) =~= seq![c]);
    assert(char_count(seq![c], c) == 1) by {
        assert(seq![c].drop_last() =~= Seq::<char>::empty());
    }
    assert(s.skip(pos).skip(1) =~= s.skip(pos + 1));
    lemma_char_count_zero(s.skip(pos + 1), c);
    if k < pos {
        assert(s.take(pos)[k] == c);
    } else if k > pos {
        assert(s.skip(pos + 1)[k - pos - 1] == c);
    }
}


/// The decimal notation of an integer, with a `-` before a negative one.
pub open spec fn signed_decimal(i: int) -> Seq<char> {
    if i < 0 {
        seq!['-'] + decimal((-i) as nat)
    } else {
        decimal(i as nat)
    }
}

/// Appends the decimal notation of `n` (with its sign) to `v`.
pub fn push_signed(v: &mut Vec<char>, n: i64)
    ensures
        final(v)@ == old(v)@ + signed_decimal(n as int),
{
    if n < 0 {
        v.push('-');
        let ghost mid = v@;
        let m: u64 = if n == i64::MIN { 9223372036854775808u64 } else { (-n) as u64 };
        assert(m as int == -(n as int));
        push_decimal(v, m);
        assert(v@ =~= old(v)@ + signed_decimal(n as int));
    } else {
        push_decimal(v, n as u64);
    }
}


/// Two first occurrences of `c` in `s` are the same position.
pub proof fn lemma_first_occurrence_unique(s: Seq<char>, c: char, i: int, k: int)
    requires
        0 <= i < s.len(),
        s[i] == c,
        !has_char(s.take(i), c),
        0 <= k < s.len(),
        s[k] == c,
        !has_char(s.take(k), c),
    ensures
        i == k,
{
    if i < k {
        assert(s.take(k)[i] == c);
    } else if k < i {
        assert(s.take(i)[k] == c);
    }
}

/// The number of bytes of `c` in UTF-8.
pub open spec fn utf8_char_len(c: char) -> nat {
    if (c as u32) < 0x80 {
        1
    } else if (c as u32) < 0x800 {
        2
    } else if (c as u32) < 0x10000 {
        3
    } else {
        4
    }
}

/// The number of bytes of `s` in UTF-8, as `str::len` counts them.
pub open spec fn utf8_len(s: Seq<char>) -> nat
    decreases s.len(),
{
    if s.len() == 0 {
        0
    } else {
        utf8_len(s.drop_last()) + utf8_char_len(s.last())
    }
}

proof fn lemma_utf8_len_prefix_grows(s: Seq<char>, i: int)
    requires
        0 <= i <= s.len(),
    ensures
        utf8_len(s.take(i)) <= utf8_len(s),
    decreases s.len() - i,
{
    if i < s.len() {
        lemma_utf8_len_prefix_grows(s, i + 1);
        assert(s.take(i + 1).drop_last() =~= s.take(i));
    } else {
        assert(s.take(i) =~= s);
    }
}

/// Whether `s` takes exactly `n` bytes in UTF-8.
pub fn utf8_len_is(s: &[char], n: usize) -> (b: bool)
    ensures
        b == (utf8_len(s@) == n),
{
    let mut count: usize = 0;
    let mut i: usize = 0;
    assert(s@.take(0) =~= Seq::<char>::empty());
    while i < s.len()
        invariant
            i <= s@.len(),
            count == utf8_len(s@.take(i as int)),
            count <= n,
        decreases s.len() - i,
    {
        assert(s@.take(i + 1).drop_last() =~= s@.take(i as int));
        let c = s[i];
        let k: usize = if (c as u32) < 0x80 { 1 } else if (c as u32) < 0x800 { 2 } else if (c as u32) < 0x10000 { 3 } else { 4 };
        if k > n - count {
            proof { lemma_utf8_len_prefix_grows(s@, i + 1); }
            return false;
        }
        count = count + k;
        i = i + 1;
    }
    assert(s@.take(i as int) =~= s@);
    count == n
}


/// The lowercase hexadecimal digit for `d` (`d < 16`).
pub open spec fn hex_digit_char(d: nat) -> char {
    if d < 10 { digit_char(d) } else if d == 10 { 'a' } else if d == 11 { 'b' } else if d == 12 { 'c' }
    else if d == 13 { 'd' } else if d == 14 { 'e' } else { 'f' }
}

/// The lowercase hexadecimal notation of `n`, without leading zeros, as
/// `{:x}` writes it.
pub open spec fn hex_lower(n: nat) -> Seq<char>
    decreases n,
{
    if n < 16 {
        seq![hex_digit_char(n)]
    } else {
        hex_lower(n / 16).push(hex_digit_char(n % 16))
    }
}

fn hex_char_of(d: u64) -> (c: char)
    requires
        d < 16,
    ensures
        c == hex_digit_char(d as nat),
{
    if d == 0 { '0' } else if d == 1 { '1' } else if d == 2 { '2' } else if d == 3 { '3' }
    else if d == 4 { '4' } else if d == 5 { '5' } else if d == 6 { '6' } else if d == 7 { '7' }
    else if d == 8 { '8' } else if d == 9 { '9' } else if d == 10 { 'a' } else if d == 11 { 'b' }
    else if d == 12 { 'c' } else if d == 13 { 'd' } else if d == 14 { 'e' } else { 'f' }
}

fn push_hex(v: &mut Vec<char>, n: u64)
    ensures
        final(v)@ == old(v)@ + hex_lower(n as nat),
    decreases n,
{
    if n >= 16 {
        push_hex(v, n / 16);
    }
    let c = hex_char_of(n % 16);
    v.push(c);
    assert(v@ =~= old(v)@ + hex_lower(n as nat));
}

/// The lowercase hexadecimal notation of `n`; see [`hex_lower`].
pub fn u64_to_hex(n: u64) -> (s: String)
    ensures
        s@ == hex_lower(n as nat),
{
    let mut v: Vec<char> = Vec::new();
    push_hex(&mut v, n);
    assert(v@ =~= hex_lower(n as nat));
    string_from_chars(v.as_slice())
}

} // verus!
