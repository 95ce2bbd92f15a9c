//! The command line of skynet, and what its HTTP exposer does with each
//! stream that a peer opens.

use vstd::prelude::*;
use crate::text::{push_text, push_number, decimal, string_from_chars};

verus! {

/// A command of `skynet`.
pub enum Command {
    /// Expose an HTTP service on the port, HTTPS where `secure`.
    ExposeHttp { port: u16, secure: bool },
}

/// The first message that a peer sends on a new stream, by kind.
#[derive(Debug, Clone, Copy, PartialEq, Eq, Structural)]
pub enum PeerMessage {
    /// The peer asks for the exposed HTTP service.
    Identity,
    /// Any other protocol.
    Other,
}

/// What the exposer does with a stream.
#[derive(Debug, Clone, PartialEq, Eq)]
pub enum StreamAction {
    /// Proxy the stream's HTTP traffic to `addr`, then wait for the next
    /// stream of the same connection.
    Proxy { addr: String },
    /// Write `reply` on the stream and stop serving the connection.
    Refuse { reply: String },
}

/// The local address of the exposed service: `host:port`.
pub open spec fn service_addr(host: Seq<char>, port: u16) -> Seq<char> {
    host + seq![':'] + decimal(port as nat)
}

/// The exposer's answer to a stream whose first message is `msg`: the
/// identity protocol is proxied to `host:port`, any other protocol is
/// refused with `error: unsupported protocol` and a line break.
pub fn stream_action(msg: PeerMessage, host: &str, port: u16) -> (a: StreamAction)
    ensures
        (msg == PeerMessage::Identity) <==> (a is Proxy),
        a matches StreamAction::Proxy { addr } ==> addr@ == service_addr(host@, port),
        a matches StreamAction::Refuse { reply } ==> reply@ == "error: unsupported protocol\n"@,
{
    match msg {
        PeerMessage::Identity => {
            let mut v: Vec<char> = Vec::new();
            push_text(&mut v, host);
            v.push(':');
            push_number(&mut v, port as u64);
            assert(v@ =~= service_addr(host@, port));
            StreamAction::Proxy { addr: string_from_chars(v.as_slice()) }
        },
        PeerMessage::Other => StreamAction::Refuse { reply: String::from_str("error: unsupported protocol\n") },
    }
}

} // verus!
