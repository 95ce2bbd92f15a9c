//! The HTTP bridge and the HTTP proxy: which peer a bridged request goes
//! to, and what a proxied connection asks the remote side to reach.

use vstd::prelude::*;
use vstd::slice::slice_subrange;
use crate::text::{
    has_char, chars_of, find_char, chars_eq, string_from_chars, push_text, push_number, decimal,
    utf8_len, utf8_len_is, lemma_first_occurrence_unique,
};

verus! {

/// The message for a request whose peer id is wrong or not allowed.
pub open spec fn invalid_peer_spec() -> Seq<char> {
    "got http request with invalid peer id"@
}

/// The message for a request without a usable `Host` header.
pub open spec fn no_host_spec() -> Seq<char> {
    "got http request without Host header"@
}

/// The peer a bridged request goes to: the part of its `Host` header before
/// the first dot, which must be 52 bytes long and, where the bridge serves
/// one peer only, be that peer. The error is the body of the 400 answer.
pub open spec fn bridge_peer_spec(host: Option<Seq<char>>, proxy_target: Option<Seq<char>>) -> Result<Seq<char>, Seq<char>> {
    match host {
        None => Err(no_host_spec()),
        Some(h) => if !has_char(h, '.') {
            Err(no_host_spec())
        } else {
            let i = choose|i: int| 0 <= i < h.len() && h[i] == '.' && !has_char(h.take(i), '.');
            let first = h.take(i);
            if utf8_len(first) != 52 {
                Err(invalid_peer_spec())
            } else {
                match proxy_target {
                    Some(t) => if first != t {
                        Err(invalid_peer_spec())
                    } else {
                        Ok(first)
                    },
                    None => Ok(first),
                }
            }
        },
    }
}

/// Chooses the peer of a bridged request from its `Host` header (absent where
/// the header is missing or not text); see [`bridge_peer_spec`].
pub fn bridge_peer_id(host: Option<&str>, proxy_target: Option<&str>) -> (r: Result<String, String>)
    ensures
        match r {
            Ok(p) => bridge_peer_spec(opt_view(host), opt_view(proxy_target)) == Ok::<Seq<char>, Seq<char>>(p@),
            Err(m) => bridge_peer_spec(opt_view(host), opt_view(proxy_target)) == Err::<Seq<char>, Seq<char>>(m@),
        },
{
    let h = match host {
        None => return Err(String::from_str("got http request without Host header")),
        Some(h) => h,
    };
    let v = chars_of(h);
    let i = match find_char(v.as_slice(), '.') {
        None => return Err(String::from_str("got http request without Host header")),
        Some(i) => i,
    };
    proof {
        let k = choose|k: int| 0 <= k < v@.len() && v@[k] == '.' && !has_char(v@.take(k), '.');
        lemma_first_occurrence_unique(v@, '.', i as int, k);
    }
    let first = slice_subrange(v.as_slice(), 0, i);
    assert(first@ =~= v@.take(i as int));
    if !utf8_len_is(first, 52) {
        return Err(String::from_str("got http request with invalid peer id"));
    }
    match proxy_target {
        Some(t) => {
            let tv = chars_of(t);
            if !chars_eq(first, tv.as_slice()) {
                return Err(String::from_str("got http request with invalid peer id"));
            }
            Ok(string_from_chars(first))
        },
        None => Ok(string_from_chars(first)),
    }
}

/// The view of an optional string slice.
pub open spec fn opt_view(o: Option<&str>) -> Option<Seq<char>> {
    match o {
        Some(s) => Some(s@),
        None => None,
    }
}

/// What a proxied stream asks the remote side to connect to.
pub enum ProxyData {
    /// A raw TCP connection to `addr` (an upgraded HTTP connection).
    Connect { addr: String },
    /// HTTP requests for `addr`.
    Http { addr: String },
}

/// The target of an upgraded proxy connection: the host it named.
pub fn upgrade_target(host: Option<&str>) -> (r: Result<ProxyData, String>)
    ensures
        match (host, r) {
            (Some(h), Ok(ProxyData::Connect { addr })) => addr@ == h@,
            (None, Err(m)) => m@ == "no host header found"@,
            _ => false,
        },
{
    match host {
        Some(h) => Ok(ProxyData::Connect { addr: String::from_str(h) }),
        None => Err(String::from_str("no host header found")),
    }
}

/// `Listening on http://127.0.0.1:<port>`, the line a local server prints.
pub fn listening_line(port: u16) -> (s: String)
    ensures
        s@ == "Listening on http://127.0.0.1:"@ + decimal(port as nat),
{
    let mut m: Vec<char> = Vec::new();
    push_text(&mut m, "Listening on http://127.0.0.1:");
    push_number(&mut m, port as u64);
    string_from_chars(m.as_slice())
}


/// A bridge that serves one peer only never reaches another.
pub proof fn law_bridge_reaches_only_its_target(host: Option<Seq<char>>, target: Seq<char>)
    ensures
        bridge_peer_spec(host, Some(target)) matches Ok(p) ==> p == target,
{
}

} // verus!
