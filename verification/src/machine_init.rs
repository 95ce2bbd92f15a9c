//! Joining a machine to a cluster, and running commands on machines of a
//! cluster: the checks and texts around the network calls.

use vstd::prelude::*;
use vstd::slice::slice_subrange;
use crate::text::{
    has_char, str_has_char, push_text, push_number, push_signed, string_from_chars, chars_of, find_char,
    decimal, signed_decimal, seq_contains,
};
use crate::config_manager::daemon_not_running;

verus! {

/// The message refusing a cluster manager given by a domain name.
pub open spec fn domain_refused_spec() -> Seq<char> {
    "Domain names not supported for security reasons. Use cluster manager ID52 directly."@
}

/// Admits a cluster manager named by its id52; a name with a dot is a domain
/// name, which is refused.
pub fn check_cluster_manager(cluster_manager: &str) -> (r: Result<(), String>)
    ensures
        r is Ok <==> !has_char(cluster_manager@, '.'),
        r matches Err(m) ==> m@ == domain_refused_spec(),
{
    if str_has_char(cluster_manager, '.') {
        Err(String::from_str("Domain names not supported for security reasons. Use cluster manager ID52 directly."))
    } else {
        Ok(())
    }
}

/// The registration record a machine keeps of the cluster it joined; the
/// domain is the cluster manager's name where it is one, else empty.
pub open spec fn cluster_info_spec(cluster_alias: Seq<char>, cluster_manager: Seq<char>, machine_id52: Seq<char>) -> Seq<char> {
    "# Cluster registration information\ncluster_alias = \""@ + cluster_alias
        + "\"\ncluster_manager_id52 = \""@ + cluster_manager
        + "\"\nmachine_id52 = \""@ + machine_id52
        + "\"\ndomain = \""@ + (if has_char(cluster_manager, '.') { cluster_manager } else { Seq::empty() })
        + "\"\n"@
}

/// Writes the registration record of a machine; see [`cluster_info_spec`].
pub fn cluster_info_text(cluster_alias: &str, cluster_manager: &str, machine_id52: &str) -> (s: String)
    ensures
        s@ == cluster_info_spec(cluster_alias@, cluster_manager@, machine_id52@),
{
    let mut v: Vec<char> = Vec::new();
    push_text(&mut v, "# Cluster registration information\ncluster_alias = \"");
    push_text(&mut v, cluster_alias);
    push_text(&mut v, "\"\ncluster_manager_id52 = \"");
    push_text(&mut v, cluster_manager);
    push_text(&mut v, "\"\nmachine_id52 = \"");
    push_text(&mut v, machine_id52);
    push_text(&mut v, "\"\ndomain = \"");
    if str_has_char(cluster_manager, '.') {
        push_text(&mut v, cluster_manager);
    }
    push_text(&mut v, "\"\n");
    assert(v@ =~= cluster_info_spec(cluster_alias@, cluster_manager@, machine_id52@));
    string_from_chars(v.as_slice())
}

/// What telling the daemon of a new machine came to.
pub enum NotifyOutcome {
    /// The daemon rescanned the cluster.
    Notified,
    /// No daemon runs, which is expected right after joining.
    DaemonNotRunning,
    /// The daemon could not be told; the joining fails with this message.
    Failed(String),
}

/// Classifies the outcome of asking the daemon to rescan (its error as text).
pub fn notify_outcome(result: Result<(), String>) -> (o: NotifyOutcome)
    ensures
        match (result, o) {
            (Ok(()), NotifyOutcome::Notified) => true,
            (Err(e), NotifyOutcome::DaemonNotRunning) => seq_contains(e@, "no Unix socket found"@),
            (Err(e), NotifyOutcome::Failed(m)) => !seq_contains(e@, "no Unix socket found"@)
                && m@ == "Failed to notify daemon of new machine: "@ + e@,
            _ => false,
        },
{
    match result {
        Ok(()) => NotifyOutcome::Notified,
        Err(e) => {
            if daemon_not_running(e.as_str()) {
                NotifyOutcome::DaemonNotRunning
            } else {
                let mut m: Vec<char> = Vec::new();
                push_text(&mut m, "Failed to notify daemon of new machine: ");
                push_text(&mut m, e.as_str());
                NotifyOutcome::Failed(string_from_chars(m.as_slice()))
            }
        },
    }
}

/// The machine and cluster of an address `machine.cluster[.more]`: the first
/// two dot-separated parts; an address without a dot is refused.
pub open spec fn remote_address_spec(s: Seq<char>) -> Option<(Seq<char>, Seq<char>)> {
    if !has_char(s, '.') {
        None
    } else {
        let i = choose|i: int| 0 <= i < s.len() && s[i] == '.' && !has_char(s.take(i), '.');
        let rest = s.skip(i + 1);
        if has_char(rest, '.') {
            let j = choose|j: int| 0 <= j < rest.len() && rest[j] == '.' && !has_char(rest.take(j), '.');
            Some((s.take(i), rest.take(j)))
        } else {
            Some((s.take(i), rest))
        }
    }
}

/// Splits an address for a remote command; see [`remote_address_spec`].
pub fn parse_remote_address(machine_address: &str) -> (r: Result<(String, String), String>)
    ensures
        match r {
            Ok((m, c)) => remote_address_spec(machine_address@) == Some((m@, c@)),
            Err(e) => remote_address_spec(machine_address@) is None
                && e@ == "Invalid machine address format: "@ + machine_address@,
        },
{
    let v = chars_of(machine_address);
    match find_char(v.as_slice(), '.') {
        None => {
            let mut m: Vec<char> = Vec::new();
            push_text(&mut m, "Invalid machine address format: ");
            push_text(&mut m, machine_address);
            Err(string_from_chars(m.as_slice()))
        },
        Some(i) => {
            proof {
                let k = choose|k: int| 0 <= k < v@.len() && v@[k] == '.' && !has_char(v@.take(k), '.');
                crate::text::lemma_first_occurrence_unique(v@, '.', i as int, k);
            }
            assert(i < v.len());
            let machine = slice_subrange(v.as_slice(), 0, i);
            let rest = slice_subrange(v.as_slice(), i + 1, v.len());
            assert(machine@ =~= v@.take(i as int));
            assert(rest@ =~= v@.skip(i + 1));
            match find_char(rest, '.') {
                None => Ok((string_from_chars(machine), string_from_chars(rest))),
                Some(j) => {
                    proof {
                        let k = choose|k: int| 0 <= k < rest@.len() && rest@[k] == '.' && !has_char(rest@.take(k), '.');
                        crate::text::lemma_first_occurrence_unique(rest@, '.', j as int, k);
                    }
                    let cluster = slice_subrange(rest, 0, j);
                    assert(cluster@ =~= rest@.take(j as int));
                    Ok((string_from_chars(machine), string_from_chars(cluster)))
                },
            }
        },
    }
}

/// How a remote command call ended.
pub enum RemoteCallResult {
    /// The machine ran the command.
    Reply { exit_code: i32, execution_time_ms: u64 },
    /// The machine refused, with this message.
    RemoteError(String),
    /// The call failed, with this message.
    CallFailed(String),
    /// No answer came within the time limit.
    TimedOut,
}

/// What is reported of a remote command call: the summary line of a reply,
/// or the error.
pub open spec fn remote_outcome_spec(r: RemoteCallResult) -> Result<Seq<char>, Seq<char>> {
    match r {
        RemoteCallResult::Reply { exit_code, execution_time_ms } => if exit_code == 0 {
            Ok("✅ Remote command executed successfully ("@ + decimal(execution_time_ms as nat) + "ms)"@)
        } else {
            Ok("❌ Remote command failed with exit code: "@ + signed_decimal(exit_code as int))
        },
        RemoteCallResult::RemoteError(e) => Err("Remote access error: "@ + e@),
        RemoteCallResult::CallFailed(e) => Err("P2P communication failed: "@ + e@),
        RemoteCallResult::TimedOut => Err("Remote command timed out after 30 seconds"@),
    }
}

/// Reports a remote command call; see [`remote_outcome_spec`].
pub fn remote_call_outcome(r: RemoteCallResult) -> (o: Result<String, String>)
    ensures
        match o {
            Ok(s) => remote_outcome_spec(r) == Ok::<Seq<char>, Seq<char>>(s@),
            Err(s) => remote_outcome_spec(r) == Err::<Seq<char>, Seq<char>>(s@),
        },
{
    let ghost r0 = r;
    let mut m: Vec<char> = Vec::new();
    match r {
        RemoteCallResult::Reply { exit_code, execution_time_ms } => {
            if exit_code == 0 {
                push_text(&mut m, "✅ Remote command executed successfully (");
                push_number(&mut m, execution_time_ms);
                push_text(&mut m, "ms)");
            } else {
                push_text(&mut m, "❌ Remote command failed with exit code: ");
                push_signed(&mut m, exit_code as i64);
            }
            assert(remote_outcome_spec(r0) == Ok::<Seq<char>, Seq<char>>(m@));
            Ok(string_from_chars(m.as_slice()))
        },
        RemoteCallResult::RemoteError(e) => {
            push_text(&mut m, "Remote access error: ");
            push_text(&mut m, e.as_str());
            Err(string_from_chars(m.as_slice()))
        },
        RemoteCallResult::CallFailed(e) => {
            push_text(&mut m, "P2P communication failed: ");
            push_text(&mut m, e.as_str());
            Err(string_from_chars(m.as_slice()))
        },
        RemoteCallResult::TimedOut => Err(String::from_str("Remote command timed out after 30 seconds")),
    }
}

/// The line that reports how a command run on this machine ended; an exit
/// without a status code is reported as `-1`.
pub fn local_exit_summary(success: bool, status_code: Option<i32>) -> (s: String)
    ensures
        s@ == (if success {
            "✅ Self-command completed"@
        } else {
            "❌ Command failed with exit code: "@ + signed_decimal(match status_code {
                Some(c) => c as int,
                None => -1int,
            })
        }),
{
    if success {
        return String::from_str("✅ Self-command completed");
    }
    let code: i32 = match status_code {
        Some(c) => c,
        None => -1,
    };
    let mut m: Vec<char> = Vec::new();
    push_text(&mut m, "❌ Command failed with exit code: ");
    push_signed(&mut m, code as i64);
    string_from_chars(m.as_slice())
}

} // verus!
