//! Reading `kulfi://<id52>/<path>` URLs.

use vstd::prelude::*;
use vstd::slice::slice_subrange;
use crate::text::{chars_of, string_from_chars, has_char, occurs_at, is_first_occurrence, seq_contains, find_first, find_char};

verus! {

/// `url.split_once("kulfi://")` followed by `split_once('/')`: the URL must
/// start with `kulfi://` (its first occurrence must be at the start); the
/// id52 runs to the first `/` after it, and the path is what follows that
/// `/` (empty when there is none).
pub open spec fn parse_url_spec(url: Seq<char>) -> Result<(Seq<char>, Seq<char>), Seq<char>> {
    let scheme = "kulfi://"@;
    if !seq_contains(url, scheme) {
        Err("URL must start with kulfi://"@)
    } else {
        let p = choose|p: int| is_first_occurrence(url, scheme, p);
        if p != 0 {
            Err("URL must start with kulfi://, got "@ + url.take(p) + " in the beginning"@)
        } else {
            let rest = url.skip(scheme.len() as int);
            if !has_char(rest, '/') {
                Ok((rest, Seq::empty()))
            } else {
                let k = choose|k: int| 0 <= k < rest.len() && rest[k] == '/' && !has_char(rest.take(k), '/');
                Ok((rest.take(k), rest.skip(k + 1)))
            }
        }
    }
}

proof fn lemma_first_occurrence_unique(s: Seq<char>, n: Seq<char>, a: int, b: int)
    requires
        is_first_occurrence(s, n, a),
        is_first_occurrence(s, n, b),
    ensures
        a == b,
{
}

/// Splits a `kulfi://<id52>/<path>` URL into id52 and path; see
/// [`parse_url_spec`].
pub fn parse_url(url: &str) -> (r: Result<(String, String), String>)
    ensures
        match r {
            Ok((id, path)) => parse_url_spec(url@) == Ok::<(Seq<char>, Seq<char>), Seq<char>>((id@, path@)),
            Err(e) => parse_url_spec(url@) == Err::<(Seq<char>, Seq<char>), Seq<char>>(e@),
        },
{
    let u = chars_of(url);
    let scheme = chars_of("kulfi://");
    match find_first(u.as_slice(), scheme.as_slice()) {
        None => Err(String::from_str("URL must start with kulfi://")),
        Some(p) => {
            proof {
                let w = choose|w: int| is_first_occurrence(u@, scheme@, w);
                assert(is_first_occurrence(u@, scheme@, p as int));
                lemma_first_occurrence_unique(u@, scheme@, w, p as int);
            }
            if p != 0 {
                let mut e = String::from_str("URL must start with kulfi://, got ");
                let head = string_from_chars(slice_subrange(u.as_slice(), 0, p));
                e.append(head.as_str());
                e.append(" in the beginning");
                assert(u@.subrange(0, p as int) =~= u@.take(p as int));
                return Err(e);
            }
            let rest = slice_subrange(u.as_slice(), scheme.len(), u.len());
            assert(rest@ =~= u@.skip(scheme@.len() as int));
            match find_char(rest, '/') {
                None => {
                    let e: Vec<char> = Vec::new();
                    Ok((string_from_chars(rest), string_from_chars(e.as_slice())))
                },
                Some(k) => {
                    proof {
                        let w = choose|w: int| 0 <= w < rest@.len() && rest@[w] == '/' && !has_char(rest@.take(w), '/');
                        crate::text::lemma_first_occurrence_unique(rest@, '/', w, k as int);
                    }
                    let id = slice_subrange(rest, 0, k);
                    let path = slice_subrange(rest, k + 1, rest.len());
                    assert(id@ =~= rest@.take(k as int));
                    assert(path@ =~= rest@.skip(k + 1));
                    Ok((string_from_chars(id), string_from_chars(path)))
                },
            }
        },
    }
}

/// Writing `kulfi://<id52>/<path>` and reading it back gives the id52 and the
/// path, for an id52 without `/`.
pub proof fn law_parse_url_round_trip(id52: Seq<char>, path: Seq<char>)
    requires
        !has_char(id52, '/'),
    ensures
        parse_url_spec("kulfi://"@ + id52 + seq!['/'] + path) == Ok::<(Seq<char>, Seq<char>), Seq<char>>((id52, path)),
{
    let scheme = "kulfi://"@;
    let url = scheme + id52 + seq!['/'] + path;
    assert(url.subrange(0, scheme.len() as int) =~= scheme);
    assert(occurs_at(url, scheme, 0));
    assert(is_first_occurrence(url, scheme, 0));
    let p = choose|p: int| is_first_occurrence(url, scheme, p);
    lemma_first_occurrence_unique(url, scheme, p, 0);
    let rest = url.skip(scheme.len() as int);
    assert(rest =~= id52 + seq!['/'] + path);
    let n = id52.len() as int;
    assert(rest[n] == '/');
    assert(rest.take(n) =~= id52);
    let k = choose|k: int| 0 <= k < rest.len() && rest[k] == '/' && !has_char(rest.take(k), '/');
    crate::text::lemma_first_occurrence_unique(rest, '/', k, n);
    assert(rest.skip(n + 1) =~= path);
}


/// The local address the browser is sent to once the bridge for a URL
/// listens on `port`: `http://127.0.0.1:<port>/<path>`.
pub fn local_browse_address(port: u16, path: &str) -> (s: String)
    ensures
        s@ == "http://127.0.0.1:"@ + crate::text::decimal(port as nat) + "/"@ + path@,
{
    let mut v: Vec<char> = Vec::new();
    crate::text::push_text(&mut v, "http://127.0.0.1:");
    crate::text::push_number(&mut v, port as u64);
    crate::text::push_text(&mut v, "/");
    crate::text::push_text(&mut v, path);
    string_from_chars(v.as_slice())
}

} // verus!
