//! What an identity service can tell the proxy to do with a request.

use vstd::prelude::*;

verus! {

/// One change to make to a request.
pub enum RequestPatchItem {
    AddHeader { name: String, value: String },
    DeleteHeader { name: String },
    AddCookie { name: String, value: String },
    DeleteCookie { name: String },
}

/// The changes to make to a request, in order.
pub type RequestPatch = Vec<RequestPatchItem>;

/// What to do with a request.
pub enum WhatToDo {
    /// Send it to a peer, changed by the patch.
    ForwardToPeer { peer_id: String, patch: RequestPatch },
    /// Pass it to a local port with extra headers.
    ProxyPass { port: u16, extra_headers: RequestPatch },
    /// The peer is not known.
    UnknownPeer,
}

} // verus!
