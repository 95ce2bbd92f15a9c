//! What the exposing commands tell the user: where a service can be reached
//! and how to connect to it, as lines of styled text.

use vstd::prelude::*;
use crate::text::{push_text, push_number, decimal, string_from_chars};

verus! {

/// How a piece of a line is shown.
#[derive(Debug, Clone, Copy, PartialEq, Eq, Structural)]
pub enum Tone {
    /// As it is.
    Plain,
    /// The program's name badge (black on green).
    Badge,
    /// Something to copy or visit (yellow).
    Highlight,
}

/// A piece of a line of text with its style.
pub struct Segment {
    pub text: String,
    pub tone: Tone,
}

/// The lines of segments, as text and style.
pub open spec fn lines_view(l: Seq<Vec<Segment>>) -> Seq<Seq<(Seq<char>, Tone)>> {
    l.map_values(|line: Vec<Segment>| line@.map_values(|s: Segment| (s.text@, s.tone)))
}

/// When the lines are shown: at start, or when asked for on the way out.
#[derive(Debug, Clone, Copy, PartialEq, Eq, Structural)]
pub enum InfoMode {
    Startup,
    OnExit,
}

fn seg(text: &str, tone: Tone) -> (s: Segment)
    ensures
        s.text@ == text@,
        s.tone == tone,
{
    Segment { text: String::from_str(text), tone }
}

fn seg_chars(v: &Vec<char>, tone: Tone) -> (s: Segment)
    ensures
        s.text@ == v@,
        s.tone == tone,
{
    Segment { text: string_from_chars(v.as_slice()), tone }
}

fn one(s: Segment) -> (l: Vec<Segment>)
    ensures
        l@ == seq![s],
{
    let mut l: Vec<Segment> = Vec::new();
    l.push(s);
    l
}

fn two(a: Segment, b: Segment) -> (l: Vec<Segment>)
    ensures
        l@ == seq![a, b],
{
    let mut l: Vec<Segment> = Vec::new();
    l.push(a);
    l.push(b);
    l
}

/// The blank line that opens the lines shown on the way out.
pub open spec fn exit_head(mode: InfoMode) -> Seq<Seq<(Seq<char>, Tone)>> {
    if mode == InfoMode::OnExit { seq![Seq::empty()] } else { Seq::empty() }
}

/// The reminder that closes the lines shown on the way out.
pub open spec fn exit_tail(mode: InfoMode) -> Seq<Seq<(Seq<char>, Tone)>> {
    if mode == InfoMode::OnExit {
        seq![seq![("Press ctrl+c again to exit."@, Tone::Plain)]]
    } else {
        Seq::empty()
    }
}

/// The lines shown by `malai http`: the local address, the public address
/// (through the bridge where one is set, else the `kulfi://` address), how
/// to reach it from a browser, and the `malai browse` command.
pub open spec fn http_info_spec(mode: InfoMode, host: Seq<char>, port: u16, id52: Seq<char>, bridge: Seq<char>) -> Seq<Seq<(Seq<char>, Tone)>> {
    exit_head(mode)
        + seq![seq![("Malai"@, Tone::Badge), (": Sharing "@, Tone::Plain),
            ("http://"@ + host + ":"@ + decimal(port as nat), Tone::Highlight), (" at"@, Tone::Plain)]]
        + seq![if bridge.len() > 0 {
            seq![("https://"@ + id52 + "."@ + bridge, Tone::Highlight)]
        } else {
            seq![("kulfi://"@ + id52, Tone::Highlight)]
        }]
        + (if mode == InfoMode::Startup {
            seq![seq![(if bridge.len() > 0 {
                "To access via web browser, run your own bridge with: malai http-bridge"@
            } else {
                "To access via web browser, set up an HTTP bridge. See documentation for details."@
            }, Tone::Plain)]]
        } else {
            Seq::empty()
        })
        + seq![seq![("\nOr use: "@, Tone::Plain), ("malai browse kulfi://"@ + id52, Tone::Highlight)]]
        + exit_tail(mode)
}

fn push_exit_head(lines: &mut Vec<Vec<Segment>>, mode: InfoMode)
    ensures
        lines_view(final(lines)@) == lines_view(old(lines)@) + exit_head(mode),
{
    let ghost before = lines@;
    if mode == InfoMode::OnExit {
        lines.push(Vec::new());
    }
    assert(lines_view(lines@) =~~= lines_view(before) + exit_head(mode));
}

fn push_exit_tail(lines: &mut Vec<Vec<Segment>>, mode: InfoMode)
    ensures
        lines_view(final(lines)@) == lines_view(old(lines)@) + exit_tail(mode),
{
    let ghost before = lines@;
    if mode == InfoMode::OnExit {
        lines.push(one(seg("Press ctrl+c again to exit.", Tone::Plain)));
    }
    assert(lines_view(lines@) =~~= lines_view(before) + exit_tail(mode));
}

fn push_line(lines: &mut Vec<Vec<Segment>>, line: Vec<Segment>)
    ensures
        lines_view(final(lines)@) == lines_view(old(lines)@).push(line@.map_values(|s: Segment| (s.text@, s.tone))),
{
    let ghost before = lines@;
    lines.push(line);
    assert(lines_view(lines@) =~~= lines_view(before).push(line@.map_values(|s: Segment| (s.text@, s.tone))));
}

impl InfoMode {
    /// The lines shown by `malai http`; see [`http_info_spec`].
    pub fn http_lines(&self, host: &str, port: u16, id52: &str, bridge: &str) -> (l: Vec<Vec<Segment>>)
        ensures
            lines_view(l@) == http_info_spec(*self, host@, port, id52@, bridge@),
    {
        let mode = *self;
        let mut lines: Vec<Vec<Segment>> = Vec::new();
        assert(lines_view(lines@) =~~= Seq::empty());
        push_exit_head(&mut lines, mode);
        let mut addr: Vec<char> = Vec::new();
        push_text(&mut addr, "http://");
        push_text(&mut addr, host);
        push_text(&mut addr, ":");
        push_number(&mut addr, port as u64);
        let mut first: Vec<Segment> = Vec::new();
        first.push(seg("Malai", Tone::Badge));
        first.push(seg(": Sharing ", Tone::Plain));
        first.push(seg_chars(&addr, Tone::Highlight));
        first.push(seg(" at", Tone::Plain));
        push_line(&mut lines, first);
        let mut public: Vec<char> = Vec::new();
        if bridge.unicode_len() > 0 {
            push_text(&mut public, "https://");
            push_text(&mut public, id52);
            push_text(&mut public, ".");
            push_text(&mut public, bridge);
        } else {
            push_text(&mut public, "kulfi://");
            push_text(&mut public, id52);
        }
        push_line(&mut lines, one(seg_chars(&public, Tone::Highlight)));
        if mode == InfoMode::Startup {
            if bridge.unicode_len() > 0 {
                push_line(&mut lines, one(seg("To access via web browser, run your own bridge with: malai http-bridge", Tone::Plain)));
            } else {
                push_line(&mut lines, one(seg("To access via web browser, set up an HTTP bridge. See documentation for details.", Tone::Plain)));
            }
        }
        let mut browse: Vec<char> = Vec::new();
        push_text(&mut browse, "malai browse kulfi://");
        push_text(&mut browse, id52);
        push_line(&mut lines, two(seg("\nOr use: ", Tone::Plain), seg_chars(&browse, Tone::Highlight)));
        push_exit_tail(&mut lines, mode);
        assert(lines_view(lines@) =~~= http_info_spec(mode, host@, port, id52@, bridge@));
        lines
    }

    /// The lines shown by `malai tcp`; see [`tcp_info_spec`].
    pub fn tcp_lines(&self, port: u16, id52: &str) -> (l: Vec<Vec<Segment>>)
        ensures
            lines_view(l@) == tcp_info_spec(*self, port, id52@),
    {
        let mode = *self;
        let mut lines: Vec<Vec<Segment>> = Vec::new();
        assert(lines_view(lines@) =~~= Seq::empty());
        push_exit_head(&mut lines, mode);
        if mode == InfoMode::Startup {
            let mut t: Vec<char> = Vec::new();
            push_text(&mut t, ": Sharing port ");
            push_number(&mut t, port as u64);
            push_line(&mut lines, two(seg("Malai", Tone::Badge), seg_chars(&t, Tone::Plain)));
        }
        let mut c: Vec<char> = Vec::new();
        push_text(&mut c, "malai tcp-bridge ");
        push_text(&mut c, id52);
        push_text(&mut c, " <some-port>");
        push_line(&mut lines, two(seg("Run ", Tone::Plain), seg_chars(&c, Tone::Highlight)));
        push_line(&mut lines, one(seg("to connect to it from any machine.", Tone::Plain)));
        push_exit_tail(&mut lines, mode);
        assert(lines_view(lines@) =~~= tcp_info_spec(mode, port, id52@));
        lines
    }

    /// The lines shown by exposing a TCP+UDP service; see
    /// [`tcp_udp_info_spec`].
    pub fn tcp_udp_lines(&self, port: u16, id52: &str) -> (l: Vec<Vec<Segment>>)
        ensures
            lines_view(l@) == tcp_udp_info_spec(*self, port, id52@),
    {
        let mode = *self;
        let mut lines: Vec<Vec<Segment>> = Vec::new();
        assert(lines_view(lines@) =~~= Seq::empty());
        push_exit_head(&mut lines, mode);
        if mode == InfoMode::Startup {
            let mut t: Vec<char> = Vec::new();
            push_text(&mut t, ": Sharing TCP+UDP port ");
            push_number(&mut t, port as u64);
            push_line(&mut lines, two(seg("Malai", Tone::Badge), seg_chars(&t, Tone::Plain)));
        }
        let mut c: Vec<char> = Vec::new();
        push_text(&mut c, "malai tcp-bridge ");
        push_text(&mut c, id52);
        push_text(&mut c, " <some-port>");
        let mut u: Vec<char> = Vec::new();
        push_text(&mut u, "malai udp-bridge ");
        push_text(&mut u, id52);
        push_text(&mut u, " <some-port>");
        let mut line: Vec<Segment> = Vec::new();
        line.push(seg("Run ", Tone::Plain));
        line.push(seg_chars(&c, Tone::Highlight));
        line.push(seg(" or ", Tone::Plain));
        line.push(seg_chars(&u, Tone::Highlight));
        push_line(&mut lines, line);
        push_line(&mut lines, one(seg("to connect to it from any machine.", Tone::Plain)));
        push_exit_tail(&mut lines, mode);
        assert(lines_view(lines@) =~~= tcp_udp_info_spec(mode, port, id52@));
        lines
    }

    /// The lines shown by the public HTTP proxy; see [`proxy_info_spec`].
    pub fn proxy_lines(&self, id52: &str) -> (l: Vec<Vec<Segment>>)
        ensures
            lines_view(l@) == proxy_info_spec(*self, id52@),
    {
        let mode = *self;
        let mut lines: Vec<Vec<Segment>> = Vec::new();
        assert(lines_view(lines@) =~~= Seq::empty());
        push_exit_head(&mut lines, mode);
        let mut first: Vec<Segment> = Vec::new();
        first.push(seg("Malai", Tone::Badge));
        first.push(seg(": Running Public HTTP Proxy at ", Tone::Plain));
        first.push(seg(id52, Tone::Highlight));
        first.push(seg(".", Tone::Plain));
        push_line(&mut lines, first);
        let mut c: Vec<char> = Vec::new();
        push_text(&mut c, "malai http-proxy ");
        push_text(&mut c, id52);
        let mut second: Vec<Segment> = Vec::new();
        second.push(seg("Run ", Tone::Plain));
        second.push(seg_chars(&c, Tone::Highlight));
        second.push(seg(" on any machine to access this proxy server.", Tone::Plain));
        push_line(&mut lines, second);
        assert(lines_view(lines@) =~~= proxy_info_spec(mode, id52@));
        lines
    }
}

/// The lines shown by exposing a TCP service: the port (at start) and the
/// bridge command to reach it.
pub open spec fn tcp_info_spec(mode: InfoMode, port: u16, id52: Seq<char>) -> Seq<Seq<(Seq<char>, Tone)>> {
    exit_head(mode)
        + (if mode == InfoMode::Startup {
            seq![seq![("Malai"@, Tone::Badge), (": Sharing port "@ + decimal(port as nat), Tone::Plain)]]
        } else {
            Seq::empty()
        })
        + seq![seq![("Run "@, Tone::Plain), ("malai tcp-bridge "@ + id52 + " <some-port>"@, Tone::Highlight)]]
        + seq![seq![("to connect to it from any machine."@, Tone::Plain)]]
        + exit_tail(mode)
}

/// The lines shown by exposing a TCP+UDP service: the port (at start) and
/// the two bridge commands to reach it.
pub open spec fn tcp_udp_info_spec(mode: InfoMode, port: u16, id52: Seq<char>) -> Seq<Seq<(Seq<char>, Tone)>> {
    exit_head(mode)
        + (if mode == InfoMode::Startup {
            seq![seq![("Malai"@, Tone::Badge), (": Sharing TCP+UDP port "@ + decimal(port as nat), Tone::Plain)]]
        } else {
            Seq::empty()
        })
        + seq![seq![("Run "@, Tone::Plain), ("malai tcp-bridge "@ + id52 + " <some-port>"@, Tone::Highlight),
            (" or "@, Tone::Plain), ("malai udp-bridge "@ + id52 + " <some-port>"@, Tone::Highlight)]]
        + seq![seq![("to connect to it from any machine."@, Tone::Plain)]]
        + exit_tail(mode)
}

/// The lines shown by the public HTTP proxy: its id52 and the command that
/// uses it.
pub open spec fn proxy_info_spec(mode: InfoMode, id52: Seq<char>) -> Seq<Seq<(Seq<char>, Tone)>> {
    exit_head(mode)
        + seq![seq![("Malai"@, Tone::Badge), (": Running Public HTTP Proxy at "@, Tone::Plain), (id52, Tone::Highlight),
            ("."@, Tone::Plain)]]
        + seq![seq![("Run "@, Tone::Plain), ("malai http-proxy "@ + id52, Tone::Highlight),
            (" on any machine to access this proxy server."@, Tone::Plain)]]
}

/// The lines that refuse to expose a service without `--public`, naming the
/// service and the command to run instead.
pub open spec fn public_refusal_spec(service: Seq<char>, cmd: Seq<char>) -> Seq<Seq<(Seq<char>, Tone)>> {
    seq![
        seq![("You need to pass --public to expose the "@ + service
            + ". This is a security feature to prevent exposing your service to the public without your knowledge."@, Tone::Plain)],
        seq![("Instead, run: "@, Tone::Plain), (cmd, Tone::Highlight)],
        seq![("In future, we will add a way to add access control."@, Tone::Plain)],
    ]
}

/// Whether a service may be exposed: only when `--public` was passed; the
/// lines explain a refusal.
pub fn public_check(public: bool, service: &str, cmd: &str) -> (r: (bool, Vec<Vec<Segment>>))
    ensures
        r.0 == public,
        public ==> r.1@.len() == 0,
        !public ==> lines_view(r.1@) == public_refusal_spec(service@, cmd@),
{
    let mut lines: Vec<Vec<Segment>> = Vec::new();
    if public {
        return (true, lines);
    }
    assert(lines_view(lines@) =~~= Seq::empty());
    let mut t: Vec<char> = Vec::new();
    push_text(&mut t, "You need to pass --public to expose the ");
    push_text(&mut t, service);
    push_text(&mut t, ". This is a security feature to prevent exposing your service to the public without your knowledge.");
    push_line(&mut lines, one(seg_chars(&t, Tone::Plain)));
    push_line(&mut lines, two(seg("Instead, run: ", Tone::Plain), seg(cmd, Tone::Highlight)));
    push_line(&mut lines, one(seg("In future, we will add a way to add access control.", Tone::Plain)));
    assert(lines_view(lines@) =~~= public_refusal_spec(service@, cmd@));
    (false, lines)
}

} // verus!
