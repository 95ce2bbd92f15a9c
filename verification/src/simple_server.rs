//! The test server's protocols, each answered with a text reply.

use vstd::prelude::*;
use crate::text::{push_text, string_from_chars};

verus! {

/// The protocols the test server answers.
#[derive(Debug, Clone, Copy, PartialEq, Eq, Structural)]
pub enum MalaiProtocol {
    Echo,
    Config,
    Execute,
}

impl MalaiProtocol {
    /// The protocol's name, as its `Display` writes it.
    pub fn to_string(&self) -> (s: String)
        ensures
            s@ == (match self {
                MalaiProtocol::Echo => "Echo"@,
                MalaiProtocol::Config => "Config"@,
                MalaiProtocol::Execute => "Execute"@,
            }),
    {
        match self {
            MalaiProtocol::Echo => String::from_str("Echo"),
            MalaiProtocol::Config => String::from_str("Config"),
            MalaiProtocol::Execute => String::from_str("Execute"),
        }
    }
}

/// A request of the test server: one message.
pub struct EchoRequest {
    pub message: String,
}

/// The test server's reply.
pub struct EchoResponse {
    pub response: String,
}

/// The test server's error.
pub struct EchoError {
    pub error: String,
}

/// The reply of the test server to a request of a protocol.
pub open spec fn echo_reply_spec(protocol: MalaiProtocol, message: Seq<char>) -> Seq<char> {
    match protocol {
        MalaiProtocol::Echo => "Echo: "@ + message,
        MalaiProtocol::Config => "Config received"@,
        MalaiProtocol::Execute => "Executed: "@ + message,
    }
}

/// Answers a request of the test server; see [`echo_reply_spec`].
pub fn handle_echo(protocol: MalaiProtocol, request: &EchoRequest) -> (r: EchoResponse)
    ensures
        r.response@ == echo_reply_spec(protocol, request.message@),
{
    let mut m: Vec<char> = Vec::new();
    match protocol {
        MalaiProtocol::Echo => {
            push_text(&mut m, "Echo: ");
            push_text(&mut m, request.message.as_str());
        },
        MalaiProtocol::Config => push_text(&mut m, "Config received"),
        MalaiProtocol::Execute => {
            push_text(&mut m, "Executed: ");
            push_text(&mut m, request.message.as_str());
        },
    }
    assert(m@ =~= echo_reply_spec(protocol, request.message@));
    EchoResponse { response: string_from_chars(m.as_slice()) }
}

} // verus!
