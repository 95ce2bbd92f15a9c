//! The SSH server's decisions: which services a machine exposes, and what
//! each kind of request is answered.

use vstd::prelude::*;
use crate::cluster_config::{
    Config, ConfigView, MachineConfig, ServiceView, can_execute_spec, can_access_service_spec,
};
use crate::protocol::{
    ExecuteRequest, ExecuteResponse, ExecuteError, ExecuteErrorCode, ShellRequest, ShellError,
    ShellErrorCode, HttpProxyRequest, HttpProxyError, HttpProxyErrorCode, ConfigSyncRequest,
    ConfigSyncResponse,
};
use crate::toml_doc::{entry_lookup, lookup_entry, pairs_view};

verus! {

/// An SSH server for one machine of the cluster.
pub struct Server {
    pub config: Config,
    pub machine_name: String,
    pub secret_key: fastn_id52::SecretKey,
}

/// What running a command came to.
pub enum CommandOutcome {
    /// The command could not be started (the error's text).
    SpawnFailed(String),
    /// Waiting for the command failed (the error's text).
    WaitFailed(String),
    /// The command finished; `code` is `None` when a signal ended it.
    Finished { stdout: Vec<u8>, stderr: Vec<u8>, code: Option<i32> },
}

pub open spec fn execute_denied_text(client: Seq<char>, command: Seq<char>, machine: Seq<char>) -> Seq<char> {
    "Permission denied: "@ + client + " cannot execute '"@ + command + "' on "@ + machine
}

pub open spec fn shell_denied_text(client: Seq<char>, machine: Seq<char>) -> Seq<char> {
    "Permission denied: "@ + client + " cannot access shell on "@ + machine
}

pub open spec fn service_denied_text(client: Seq<char>, service: Seq<char>, machine: Seq<char>) -> Seq<char> {
    "Permission denied: "@ + client + " cannot access service "@ + service + " on "@ + machine
}

/// The services (name and port) that `machine` exposes, in order; none when
/// the machine is not in the configuration.
pub open spec fn exposed_services_spec(cfg: ConfigView, machine: Seq<char>) -> Seq<(Seq<char>, u16)> {
    match entry_lookup(cfg.machines, machine) {
        None => Seq::empty(),
        Some(m) => m.services.map_values(|p: (Seq<char>, ServiceView)| (p.0, p.1.port)),
    }
}

impl Server {
    /// A server for `machine_name` under `config`, with its identity.
    pub fn new(config: Config, machine_name: String, secret_key: fastn_id52::SecretKey) -> (s: Self)
        ensures
            s.config@ == config@,
            s.machine_name@ == machine_name@,
    {
        Server { config, machine_name, secret_key }
    }

    /// The machine's own entry, which the server needs to start; the text
    /// of the error where the machine is not in the configuration.
    pub fn machine_config_for_start(&self) -> (r: Result<&MachineConfig, String>)
        ensures
            match r {
                Ok(m) => entry_lookup(self.config@.machines, self.machine_name@) == Some(m@),
                Err(e) => entry_lookup(self.config@.machines, self.machine_name@) is None
                    && e@ == "Machine '"@ + self.machine_name@ + "' not found in configuration"@,
            },
    {
        match self.config.machine(self.machine_name.as_str()) {
            Some(m) => Ok(m),
            None => {
                let mut e = String::from_str("Machine '");
                e.append(self.machine_name.as_str());
                e.append("' not found in configuration");
                Err(e)
            },
        }
    }

    /// The HTTP services this machine exposes, as (name, port).
    pub fn get_exposed_services(&self) -> (r: Vec<(String, u16)>)
        ensures
            r@.map_values(|p: (String, u16)| (p.0@, p.1)) == exposed_services_spec(self.config@, self.machine_name@),
    {
        let mut out: Vec<(String, u16)> = Vec::new();
        match lookup_entry(self.config.machines.as_slice(), self.machine_name.as_str()) {
            None => {
                assert(out@.map_values(|p: (String, u16)| (p.0@, p.1)) =~= Seq::<(Seq<char>, u16)>::empty());
                out
            },
            Some(m) => {
                let ghost want = m@.services.map_values(|p: (Seq<char>, ServiceView)| (p.0, p.1.port));
                let mut i: usize = 0;
                while i < m.services.len()
                    invariant
                        i <= m.services@.len(),
                        want == m@.services.map_values(|p: (Seq<char>, ServiceView)| (p.0, p.1.port)),
                        out@.map_values(|p: (String, u16)| (p.0@, p.1)) =~= want.take(i as int),
                    decreases m.services.len() - i,
                {
                    let ghost before = out@;
                    out.push((m.services[i].0.clone(), m.services[i].1.port));
                    assert(m@.services[i as int] == (m.services@[i as int].0@, m.services@[i as int].1@));
                    assert(out@.map_values(|p: (String, u16)| (p.0@, p.1)) =~= before.map_values(|p: (String, u16)| (p.0@, p.1)).push(want[i as int]));
                    assert(want.take(i + 1) =~= want.take(i as int).push(want[i as int]));
                    i = i + 1;
                }
                assert(want.take(i as int) =~= want);
                out
            },
        }
    }

    /// Whether `client_id52` may reach the service `service_name` of this
    /// machine.
    pub fn can_client_access_service(&self, client_id52: &str, service_name: &str) -> (b: bool)
        ensures
            b == can_access_service_spec(self.config@, client_id52@, self.machine_name@, service_name@),
    {
        self.config.can_access_service(client_id52, self.machine_name.as_str(), service_name)
    }

    /// The refusal of an execute request, where the client may not run the
    /// command here; `None` where it may.
    pub fn execute_refusal(&self, request: &ExecuteRequest) -> (r: Option<ExecuteError>)
        ensures
            match r {
                None => can_execute_spec(self.config@, request.client_id52@, self.machine_name@, request.command@),
                Some(e) => !can_execute_spec(self.config@, request.client_id52@, self.machine_name@, request.command@)
                    && e.error_code == ExecuteErrorCode::PermissionDenied
                    && e.message@ == execute_denied_text(request.client_id52@, request.command@, self.machine_name@),
            },
    {
        if self.config.can_execute_command(request.client_id52.as_str(), self.machine_name.as_str(), request.command.as_str()) {
            None
        } else {
            let mut m = String::from_str("Permission denied: ");
            m.append(request.client_id52.as_str());
            m.append(" cannot execute '");
            m.append(request.command.as_str());
            m.append("' on ");
            m.append(self.machine_name.as_str());
            Some(ExecuteError { message: m, error_code: ExecuteErrorCode::PermissionDenied })
        }
    }

    /// The answer to a shell request: a refusal where the client may not run
    /// `bash` here, and otherwise the report that interactive shells are not
    /// available.
    pub fn shell_reply(&self, request: &ShellRequest) -> (e: ShellError)
        ensures
            if can_execute_spec(self.config@, request.client_id52@, self.machine_name@, "bash"@) {
                e.error_code == ShellErrorCode::SessionFailed
                    && e.message@ == "Interactive shell not yet implemented"@
            } else {
                e.error_code == ShellErrorCode::PermissionDenied
                    && e.message@ == shell_denied_text(request.client_id52@, self.machine_name@)
            },
    {
        if self.config.can_execute_command(request.client_id52.as_str(), self.machine_name.as_str(), "bash") {
            ShellError {
                message: String::from_str("Interactive shell not yet implemented"),
                error_code: ShellErrorCode::SessionFailed,
            }
        } else {
            let mut m = String::from_str("Permission denied: ");
            m.append(request.client_id52.as_str());
            m.append(" cannot access shell on ");
            m.append(self.machine_name.as_str());
            ShellError { message: m, error_code: ShellErrorCode::PermissionDenied }
        }
    }

    /// The answer to an HTTP proxy request: a refusal where the client may
    /// not reach the service, and otherwise the report that proxying is not
    /// available.
    pub fn http_proxy_reply(&self, request: &HttpProxyRequest) -> (e: HttpProxyError)
        ensures
            if can_access_service_spec(self.config@, request.client_id52@, self.machine_name@, request.service_name@) {
                e.error_code == HttpProxyErrorCode::ServiceUnavailable
                    && e.message@ == "HTTP proxy not yet implemented"@
            } else {
                e.error_code == HttpProxyErrorCode::PermissionDenied
                    && e.message@ == service_denied_text(request.client_id52@, request.service_name@, self.machine_name@)
            },
    {
        if self.can_client_access_service(request.client_id52.as_str(), request.service_name.as_str()) {
            HttpProxyError {
                message: String::from_str("HTTP proxy not yet implemented"),
                error_code: HttpProxyErrorCode::ServiceUnavailable,
            }
        } else {
            let mut m = String::from_str("Permission denied: ");
            m.append(request.client_id52.as_str());
            m.append(" cannot access service ");
            m.append(request.service_name.as_str());
            m.append(" on ");
            m.append(self.machine_name.as_str());
            HttpProxyError { message: m, error_code: HttpProxyErrorCode::PermissionDenied }
        }
    }

    /// The answer to a configuration sync request: the placeholder hash and
    /// no update.
    pub fn config_sync_reply(&self, request: &ConfigSyncRequest) -> (r: ConfigSyncResponse)
        ensures
            r.config_hash@ == "placeholder-hash"@,
            r.config_data is None,
            !r.needs_update,
    {
        ConfigSyncResponse {
            config_hash: String::from_str("placeholder-hash"),
            config_data: None,
            needs_update: false,
        }
    }
}

/// What an execute request is answered once the command has been run: the
/// output and exit code (-1 where a signal ended it), or the error.
pub fn execute_result(outcome: CommandOutcome) -> (r: Result<ExecuteResponse, ExecuteError>)
    ensures
        match outcome {
            CommandOutcome::SpawnFailed(e) => r matches Err(x) && x.error_code == ExecuteErrorCode::CommandNotFound
                && x.message@ == "Failed to execute command: "@ + e@,
            CommandOutcome::WaitFailed(e) => r matches Err(x) && x.error_code == ExecuteErrorCode::ExecutionFailed
                && x.message@ == "Failed to wait for command: "@ + e@,
            CommandOutcome::Finished { stdout, stderr, code } => r matches Ok(resp) && resp.stdout@ == stdout@
                && resp.stderr@ == stderr@ && resp.exit_code == match code { Some(c) => c, None => -1i32 },
        },
{
    match outcome {
        CommandOutcome::SpawnFailed(e) => {
            let mut m = String::from_str("Failed to execute command: ");
            m.append(e.as_str());
            Err(ExecuteError { message: m, error_code: ExecuteErrorCode::CommandNotFound })
        },
        CommandOutcome::WaitFailed(e) => {
            let mut m = String::from_str("Failed to wait for command: ");
            m.append(e.as_str());
            Err(ExecuteError { message: m, error_code: ExecuteErrorCode::ExecutionFailed })
        },
        CommandOutcome::Finished { stdout, stderr, code } => {
            let exit_code = match code {
                Some(c) => c,
                None => -1i32,
            };
            Ok(ExecuteResponse { stdout, stderr, exit_code })
        },
    }
}

} // verus!
