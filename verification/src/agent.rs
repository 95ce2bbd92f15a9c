//! The SSH agent: where its socket lives, the environment it hands to
//! shells, and its connections to servers.

use vstd::prelude::*;
use crate::text::{path_join, path_join_text, decimal, u64_to_decimal, str_eq};

verus! {

#[verifier::external_type_specification]
#[verifier::external_body]
pub struct ExInstant(std::time::Instant);

/// `std::time::Instant::now`: the current time. Nothing is claimed of it.
#[verifier::external_body]
fn instant_now() -> std::time::Instant {
    std::time::Instant::now()
}

/// `std::time::Instant::elapsed`: the time since `i`, read from the clock.
/// Nothing is claimed of it.
#[verifier::external_body]
fn instant_elapsed(i: &std::time::Instant) -> std::time::Duration {
    i.elapsed()
}

/// `std::time::Duration::as_nanos`: the duration in nanoseconds. Nothing is
/// claimed of the number.
#[verifier::external_body]
fn duration_as_nanos(d: &std::time::Duration) -> u128 {
    d.as_nanos()
}

/// A connection that has not been used for longer than the timeout is idle.
pub fn idle_for(elapsed_nanos: u128, timeout_nanos: u128) -> (b: bool)
    ensures
        b == (elapsed_nanos > timeout_nanos),
{
    elapsed_nanos > timeout_nanos
}

/// A persistent connection to a server.
pub struct Connection {
    pub server_id52: String,
    pub last_used: std::time::Instant,
}

impl Connection {
    /// A connection to `server_id52`, last used at `now`.
    pub fn new_at(server_id52: String, now: std::time::Instant) -> (c: Self)
        ensures
            c.server_id52@ == server_id52@,
            c.last_used == now,
    {
        Connection { server_id52, last_used: now }
    }

    /// A connection to `server_id52`, used now: [`Connection::new_at`] with
    /// the clock's reading. Which instant that is, is not stated.
    pub fn new(server_id52: String) -> (c: Self)
        ensures
            c.server_id52@ == server_id52@,
    {
        let now = instant_now();
        Connection::new_at(server_id52, now)
    }

    /// Marks the connection as used at `now`.
    pub fn mark_used_at(&mut self, now: std::time::Instant)
        ensures
            final(self).last_used == now,
            final(self).server_id52@ == old(self).server_id52@,
    {
        self.last_used = now;
    }

    /// Marks the connection as used now: [`Connection::mark_used_at`] with the
    /// clock's reading. Which instant that is, is not stated (instants have no
    /// model here, and the reading depends on the clock).
    pub fn update_last_used(&mut self)
        ensures
            final(self).server_id52@ == old(self).server_id52@,
    {
        let now = instant_now();
        self.mark_used_at(now);
    }

    /// Whether the connection has gone unused for longer than `idle_timeout`:
    /// [`idle_for`] applied to the clock's reading of the time since the last
    /// use and to the timeout, both in nanoseconds. The answer depends on the
    /// clock and is not stated.
    pub fn is_idle(&self, idle_timeout: std::time::Duration) -> bool {
        let elapsed = instant_elapsed(&self.last_used);
        idle_for(duration_as_nanos(&elapsed), duration_as_nanos(&idle_timeout))
    }
}

/// The SSH agent that manages connections and provides an HTTP proxy.
pub struct Agent {
    socket_path: String,
    data_dir: String,
    client_id52: String,
    /// Server id52 and the connection to it.
    connections: Vec<(String, Connection)>,
    http_proxy_port: Option<u16>,
}

/// Where an agent with data directory `data_dir` puts its socket:
/// `<data_dir>/ssh/agent.sock`.
pub open spec fn agent_socket_path(data_dir: Seq<char>) -> Seq<char> {
    path_join(path_join(data_dir, "ssh"@), "agent.sock"@)
}

/// The lines of shell environment an agent prints: its socket, the lockdown
/// flag when asked for, and the HTTP proxy when asked for and running.
pub open spec fn environment_lines_spec(socket_path: Seq<char>, lockdown_mode: bool, http_proxy: bool, port: Option<u16>) -> Seq<Seq<char>> {
    let a = seq!["MALAI_SSH_AGENT="@ + socket_path];
    let b = if lockdown_mode { a.push("MALAI_LOCKDOWN_MODE=true"@) } else { a };
    if http_proxy && port is Some {
        b.push("HTTP_PROXY=http://127.0.0.1:"@ + decimal(port.unwrap() as nat))
    } else {
        b
    }
}

impl Agent {
    /// An agent keeping its files under `data_dir`, for the client
    /// `client_id52`; no connections and no HTTP proxy yet.
    pub fn new(data_dir: String, client_id52: String) -> (a: Self)
        ensures
            a.socket_path()@ == agent_socket_path(data_dir@),
            a.data_dir()@ == data_dir@,
            a.client_id52()@ == client_id52@,
            a.connection_count() == 0,
            a.http_proxy_port() is None,
    {
        let ssh_dir = path_join_text(data_dir.as_str(), "ssh");
        let socket_path = path_join_text(ssh_dir.as_str(), "agent.sock");
        Agent { socket_path, data_dir, client_id52, connections: Vec::new(), http_proxy_port: None }
    }

    pub closed spec fn socket_path(&self) -> String {
        self.socket_path
    }

    pub closed spec fn data_dir(&self) -> String {
        self.data_dir
    }

    pub closed spec fn client_id52(&self) -> String {
        self.client_id52
    }

    pub closed spec fn connection_count(&self) -> nat {
        self.connections@.len()
    }

    pub closed spec fn http_proxy_port(&self) -> Option<u16> {
        self.http_proxy_port
    }

    /// The path of the agent's socket.
    pub fn get_socket_path(&self) -> (p: &String)
        ensures
            *p == self.socket_path(),
    {
        &self.socket_path
    }

    /// The client identity the agent acts for.
    pub fn get_client_id52(&self) -> (s: &String)
        ensures
            *s == self.client_id52(),
    {
        &self.client_id52
    }

    /// How many server connections the agent holds.
    pub fn get_connection_count(&self) -> (n: usize)
        ensures
            n == self.connection_count(),
    {
        self.connections.len()
    }

    /// The port of the agent's HTTP proxy, once it runs.
    pub fn get_http_proxy_port(&self) -> (p: Option<u16>)
        ensures
            p == self.http_proxy_port(),
    {
        self.http_proxy_port
    }

    /// Records the port the agent's HTTP proxy listens on.
    pub fn set_http_proxy_port(&mut self, port: u16)
        ensures
            final(self).http_proxy_port() == Some(port),
            final(self).socket_path() == old(self).socket_path(),
            final(self).data_dir() == old(self).data_dir(),
            final(self).client_id52() == old(self).client_id52(),
            final(self).connection_count() == old(self).connection_count(),
    {
        self.http_proxy_port = Some(port);
    }

    /// The environment lines for shell integration; see
    /// [`environment_lines_spec`].
    pub fn environment_lines(&self, lockdown_mode: bool, http_proxy: bool) -> (r: Vec<String>)
        ensures
            r@.map_values(|s: String| s@) == environment_lines_spec(self.socket_path()@, lockdown_mode, http_proxy, self.http_proxy_port()),
    {
        let mut out: Vec<String> = Vec::new();
        let mut first = String::from_str("MALAI_SSH_AGENT=");
        first.append(self.socket_path.as_str());
        out.push(first);
        if lockdown_mode {
            out.push(String::from_str("MALAI_LOCKDOWN_MODE=true"));
        }
        if http_proxy {
            if let Some(port) = self.http_proxy_port {
                let mut line = String::from_str("HTTP_PROXY=http://127.0.0.1:");
                let digits = u64_to_decimal(port as u64);
                line.append(digits.as_str());
                out.push(line);
            }
        }
        assert(out@.map_values(|s: String| s@) =~= environment_lines_spec(self.socket_path()@, lockdown_mode, http_proxy, self.http_proxy_port()));
        out
    }
}

/// Agent utilities.
pub struct AgentUtils;

/// The lower-case form of `s` that `str::to_lowercase` gives: each
/// character mapped by Unicode's lower-case mapping, without regard to any
/// locale.
pub uninterp spec fn lowercase_of(s: Seq<char>) -> Seq<char>;

/// `str::to_lowercase`. The contract claims only that the result is the
/// lower-case form of `s`, a function of `s` alone (the name
/// `lowercase_of`); the Unicode mapping itself is not written out.
#[verifier::external_body]
fn to_lowercase(s: &str) -> (r: String)
    ensures
        r@ == lowercase_of(s@),
{
    s.to_lowercase()
}

/// Lockdown mode is on when `MALAI_LOCKDOWN_MODE` is set and its lower-case
/// form is `true`.
pub open spec fn lockdown_spec(value: Option<Seq<char>>) -> bool {
    match value {
        Some(v) => lowercase_of(v) == "true"@,
        None => false,
    }
}

impl AgentUtils {
    /// Whether lockdown mode is on, given the value of `MALAI_LOCKDOWN_MODE`
    /// (`None` where it is unset); see [`lockdown_spec`].
    pub fn is_lockdown_mode(value: Option<&str>) -> (b: bool)
        ensures
            b == lockdown_spec(match value { Some(v) => Some(v@), None => None }),
    {
        match value {
            Some(v) => {
                let l = to_lowercase(v);
                str_eq(l.as_str(), "true")
            },
            None => false,
        }
    }
}

} // verus!
