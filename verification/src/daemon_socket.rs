//! The exchange between the command line and the daemon over its Unix
//! socket: a rescan request, the daemon's handling of it, and what the
//! command line makes of the answer.

use vstd::prelude::*;
use crate::text::{push_text, string_from_chars, seq_contains, occurs_at};

verus! {

/// A message between the command line and the daemon.
pub enum DaemonMessage {
    /// Rescan every cluster.
    RescanAll,
    /// Rescan one cluster.
    RescanCluster(String),
    /// The request succeeded.
    Success,
    /// The request failed, with this message.
    Error(String),
}

/// A [`DaemonMessage`] as plain values.
pub enum DaemonMessageView {
    RescanAll,
    RescanCluster(Seq<char>),
    Success,
    Error(Seq<char>),
}

impl View for DaemonMessage {
    type V = DaemonMessageView;

    open spec fn view(&self) -> DaemonMessageView {
        match self {
            DaemonMessage::RescanAll => DaemonMessageView::RescanAll,
            DaemonMessage::RescanCluster(c) => DaemonMessageView::RescanCluster(c@),
            DaemonMessage::Success => DaemonMessageView::Success,
            DaemonMessage::Error(e) => DaemonMessageView::Error(e@),
        }
    }
}

/// The name of the daemon's socket file in the malai home folder.
pub fn socket_file_name() -> (s: String)
    ensures
        s@ == "malai.socket"@,
{
    String::from_str("malai.socket")
}

/// The error when the daemon's socket file does not exist.
pub open spec fn missing_socket_spec() -> Seq<char> {
    "Daemon not running (no Unix socket found)"@
}

/// The error when the daemon's socket file does not exist.
pub fn missing_socket_message() -> (s: String)
    ensures
        s@ == missing_socket_spec(),
{
    String::from_str("Daemon not running (no Unix socket found)")
}

/// The request for a rescan of one cluster, or of all of them.
pub fn rescan_request(cluster_name: Option<String>) -> (m: DaemonMessage)
    ensures
        m@ == (match cluster_name {
            Some(c) => DaemonMessageView::RescanCluster(c@),
            None => DaemonMessageView::RescanAll,
        }),
{
    match cluster_name {
        Some(c) => DaemonMessage::RescanCluster(c),
        None => DaemonMessage::RescanAll,
    }
}

/// What the daemon does with a message it receives.
pub enum RescanAction {
    /// Rescan every cluster.
    All,
    /// Rescan the named cluster.
    Cluster(String),
    /// Answer that the message is not a request.
    Reject,
}

/// The daemon's action for a received message: a rescan for a rescan
/// request, a rejection for anything else.
pub fn daemon_action(message: &DaemonMessage) -> (a: RescanAction)
    ensures
        match (message@, a) {
            (DaemonMessageView::RescanAll, RescanAction::All) => true,
            (DaemonMessageView::RescanCluster(c), RescanAction::Cluster(d)) => d@ == c,
            (DaemonMessageView::Success, RescanAction::Reject) => true,
            (DaemonMessageView::Error(_), RescanAction::Reject) => true,
            _ => false,
        },
{
    match message {
        DaemonMessage::RescanAll => RescanAction::All,
        DaemonMessage::RescanCluster(c) => RescanAction::Cluster(c.clone()),
        _ => RescanAction::Reject,
    }
}

/// The daemon's answer to a request from how the rescan went (its error as
/// text); `None` stands for a message that was no request.
pub fn rescan_reply(outcome: Option<Result<(), String>>) -> (m: DaemonMessage)
    ensures
        m@ == (match outcome {
            Some(Ok(())) => DaemonMessageView::Success,
            Some(Err(e)) => DaemonMessageView::Error(e@),
            None => DaemonMessageView::Error("Invalid message type"@),
        }),
{
    match outcome {
        Some(Ok(())) => DaemonMessage::Success,
        Some(Err(e)) => DaemonMessage::Error(e),
        None => DaemonMessage::Error(String::from_str("Invalid message type")),
    }
}

/// What the command line makes of the daemon's answer.
pub open spec fn response_outcome_spec(response: DaemonMessageView) -> Result<(), Seq<char>> {
    match response {
        DaemonMessageView::Success => Ok(()),
        DaemonMessageView::Error(e) => Err("Daemon rescan failed: "@ + e),
        _ => Err("Invalid response from daemon"@),
    }
}

/// Interprets the daemon's answer; see [`response_outcome_spec`].
pub fn daemon_response_outcome(response: &DaemonMessage) -> (r: Result<(), String>)
    ensures
        match r {
            Ok(()) => response_outcome_spec(response@) == Ok::<(), Seq<char>>(()),
            Err(m) => response_outcome_spec(response@) == Err::<(), Seq<char>>(m@),
        },
{
    match response {
        DaemonMessage::Success => Ok(()),
        DaemonMessage::Error(e) => {
            let mut m: Vec<char> = Vec::new();
            push_text(&mut m, "Daemon rescan failed: ");
            push_text(&mut m, e.as_str());
            Err(string_from_chars(m.as_slice()))
        },
        _ => Err(String::from_str("Invalid response from daemon")),
    }
}

/// The error when the daemon closes the socket without answering.
pub fn no_response_message() -> (s: String)
    ensures
        s@ == "No response from daemon"@,
{
    String::from_str("No response from daemon")
}

/// How a rescan went on the daemon's side is what the command line reports:
/// success as success, a failure with its message.
pub proof fn law_rescan_outcome_reaches_client(outcome: Result<(), Seq<char>>)
    ensures
        response_outcome_spec(match outcome {
            Ok(()) => DaemonMessageView::Success,
            Err(e) => DaemonMessageView::Error(e),
        }) == (match outcome {
            Ok(()) => Ok::<(), Seq<char>>(()),
            Err(e) => Err::<(), Seq<char>>("Daemon rescan failed: "@ + e),
        }),
{
}

/// The error for a missing socket is the one by which callers recognize
/// that no daemon is running.
pub proof fn law_missing_socket_means_not_running()
    ensures
        seq_contains(missing_socket_spec(), "no Unix socket found"@),
{
    reveal_strlit("Daemon not running (no Unix socket found)");
    reveal_strlit("no Unix socket found");
    assert(missing_socket_spec().subrange(20, 40) =~= "no Unix socket found"@);
    assert(occurs_at(missing_socket_spec(), "no Unix socket found"@, 20));
}

} // verus!
