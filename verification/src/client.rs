//! The SSH client: reading server addresses and locating a cluster's files.

use vstd::prelude::*;
use vstd::slice::slice_subrange;
use crate::identity_keys::{generate_secret_key, secret_key_public};
use crate::text::{chars_of, string_from_chars, has_char, char_count, count_char, find_char, path_join, path_join_text, push_text};
use crate::protocol::{
    ExecuteResponse, ExecuteError, ShellResponse, ShellError, error_text, execute_error_code_name, shell_error_code_name,
};

verus! {

/// An SSH client with its identity and data directory.
pub struct Client {
    pub secret_key: fastn_id52::SecretKey,
    pub data_dir: String,
}

/// The cluster part of a server address.
#[derive(Debug, Clone)]
pub struct ClusterInfo {
    pub cluster_id: String,
    /// Whether the cluster is named by a domain (`node.cluster.example.com`)
    /// rather than by an id52 (`node.cluster-id52`).
    pub is_domain: bool,
}

/// The cluster named by a server address `node.cluster...`: the text after
/// the first `.`; a domain when at least two dots occur. No cluster where
/// the address holds no dot.
pub open spec fn server_address_cluster(address: Seq<char>) -> Option<(Seq<char>, bool)> {
    if !has_char(address, '.') {
        None
    } else {
        let k = choose|k: int| 0 <= k < address.len() && address[k] == '.' && !has_char(address.take(k), '.');
        Some((address.subrange(k + 1, address.len() as int), char_count(address, '.') >= 2))
    }
}

/// `<data_dir>/ssh/clusters/<cluster_id>`.
pub open spec fn cluster_dir_spec(data_dir: Seq<char>, cluster_id: Seq<char>) -> Seq<char> {
    path_join(path_join(path_join(data_dir, "ssh"@), "clusters"@), cluster_id)
}

/// Reads `node.cluster...` into its cluster part; see
/// [`server_address_cluster`].
pub fn parse_cluster_part(address: &str) -> (r: Option<ClusterInfo>)
    ensures
        match r {
            Some(info) => server_address_cluster(address@) == Some((info.cluster_id@, info.is_domain)),
            None => server_address_cluster(address@) is None,
        },
{
    let a = chars_of(address);
    match find_char(a.as_slice(), '.') {
        None => None,
        Some(k) => {
            proof {
                let w = choose|w: int| 0 <= w < a@.len() && a@[w] == '.' && !has_char(a@.take(w), '.');
                assert(0 <= w < a@.len() && a@[w] == '.' && !has_char(a@.take(w), '.'));
                if w < k {
                    assert(a@.take(k as int)[w] == '.');
                } else if w > k {
                    assert(a@.take(w)[k as int] == '.');
                }
            }
            assert(k < a.len());
            let rest = slice_subrange(a.as_slice(), k + 1, a.len());
            let dots = count_char(a.as_slice(), '.');
            Some(ClusterInfo { cluster_id: string_from_chars(rest), is_domain: dots >= 2 })
        },
    }
}

impl Client {
    /// A client with the given identity and data directory.
    pub fn new(secret_key: fastn_id52::SecretKey, data_dir: String) -> (c: Self)
        ensures
            c.data_dir@ == data_dir@,
    {
        Client { secret_key, data_dir }
    }

    /// The server's key and cluster for `node.cluster...`; an error text where
    /// the address holds no dot. The server key is a freshly generated one
    /// (addresses are not resolved yet).
    pub fn parse_server_address(&self, address: &str) -> (r: Result<(fastn_id52::PublicKey, ClusterInfo), String>)
        ensures
            match r {
                Ok((_, info)) => server_address_cluster(address@) == Some((info.cluster_id@, info.is_domain)),
                Err(e) => server_address_cluster(address@) is None
                    && e@ == "Invalid server address format: "@ + address@,
            },
    {
        match parse_cluster_part(address) {
            Some(info) => {
                let mock_secret = generate_secret_key();
                let key = secret_key_public(&mock_secret);
                Ok((key, info))
            },
            None => {
                let mut e = String::from_str("Invalid server address format: ");
                e.append(address);
                Err(e)
            },
        }
    }

    /// The directory holding a cluster's files:
    /// `<data_dir>/ssh/clusters/<cluster_id>`.
    pub fn get_cluster_dir(&self, cluster_id: &str) -> (p: String)
        ensures
            p@ == cluster_dir_spec(self.data_dir@, cluster_id@),
    {
        let a = path_join_text(self.data_dir.as_str(), "ssh");
        let b = path_join_text(a.as_str(), "clusters");
        path_join_text(b.as_str(), cluster_id)
    }

    /// The file holding a cluster's configuration:
    /// `<cluster dir>/cluster-config.toml`.
    pub fn cluster_config_path(&self, cluster_id: &str) -> (p: String)
        ensures
            p@ == path_join(cluster_dir_spec(self.data_dir@, cluster_id@), "cluster-config.toml"@),
    {
        let d = self.get_cluster_dir(cluster_id);
        path_join_text(d.as_str(), "cluster-config.toml")
    }
}

/// Utility functions for SSH operations.
pub struct SshUtils;


/// What a client makes of the reply to a command: the response, or the
/// error text (the server's error as its `Display` writes it, or the
/// transport's failure).
pub fn execute_reply_outcome(reply: Result<Result<ExecuteResponse, ExecuteError>, String>) -> (r: Result<ExecuteResponse, String>)
    ensures
        match (reply, r) {
            (Ok(Ok(resp)), Ok(x)) => x.stdout@ == resp.stdout@ && x.stderr@ == resp.stderr@ && x.exit_code == resp.exit_code,
            (Ok(Err(e)), Err(m)) => m@ == "SSH execute error: "@ + error_text(e.message@, execute_error_code_name(e.error_code)),
            (Err(e), Err(m)) => m@ == "Failed to call remote server: "@ + e@,
            _ => false,
        },
{
    match reply {
        Ok(Ok(resp)) => Ok(resp),
        Ok(Err(e)) => {
            let text = e.to_string();
            let mut m: Vec<char> = Vec::new();
            push_text(&mut m, "SSH execute error: ");
            push_text(&mut m, text.as_str());
            Err(string_from_chars(m.as_slice()))
        },
        Err(e) => {
            let mut m: Vec<char> = Vec::new();
            push_text(&mut m, "Failed to call remote server: ");
            push_text(&mut m, e.as_str());
            Err(string_from_chars(m.as_slice()))
        },
    }
}

/// What a client reports of the reply to a shell request: a line for
/// standard output or for standard error, or the failure of the call.
pub enum ShellOutcome {
    /// The server opened a session; interactive sessions are not handled yet.
    Stdout(String),
    /// The server refused, with this line.
    Stderr(String),
    /// The call failed, with this message.
    Failed(String),
}

/// Interprets the reply to a shell request.
pub fn shell_reply_outcome(reply: Result<Result<ShellResponse, ShellError>, String>) -> (o: ShellOutcome)
    ensures
        match (reply, o) {
            (Ok(Ok(_)), ShellOutcome::Stdout(m)) => m@ == "Interactive shell not yet implemented"@,
            (Ok(Err(e)), ShellOutcome::Stderr(m)) => m@ == "Error: "@ + error_text(e.message@, shell_error_code_name(e.error_code)),
            (Err(e), ShellOutcome::Failed(m)) => m@ == "Failed to call remote server: "@ + e@,
            _ => false,
        },
{
    match reply {
        Ok(Ok(_)) => ShellOutcome::Stdout(String::from_str("Interactive shell not yet implemented")),
        Ok(Err(e)) => {
            let text = e.to_string();
            let mut m: Vec<char> = Vec::new();
            push_text(&mut m, "Error: ");
            push_text(&mut m, text.as_str());
            ShellOutcome::Stderr(string_from_chars(m.as_slice()))
        },
        Err(e) => {
            let mut m: Vec<char> = Vec::new();
            push_text(&mut m, "Failed to call remote server: ");
            push_text(&mut m, e.as_str());
            ShellOutcome::Failed(string_from_chars(m.as_slice()))
        },
    }
}

} // verus!
