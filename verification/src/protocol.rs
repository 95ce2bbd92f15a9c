//! The SSH-over-peer-to-peer protocol: request, response and error types.

use vstd::prelude::*;

verus! {

/// The protocols an SSH server listens for.
#[derive(Debug, Clone, Copy, PartialEq, Eq, Structural)]
pub enum SshProtocol {
    /// Execute a command on the server.
    Execute,
    /// Start an interactive shell session.
    Shell,
    /// HTTP service proxy request.
    HttpProxy,
    /// Configuration synchronization.
    ConfigSync,
}

/// The protocol's name on the wire.
pub open spec fn ssh_protocol_name(p: SshProtocol) -> Seq<char> {
    match p {
        SshProtocol::Execute => "ssh-execute"@,
        SshProtocol::Shell => "ssh-shell"@,
        SshProtocol::HttpProxy => "ssh-http-proxy"@,
        SshProtocol::ConfigSync => "ssh-config-sync"@,
    }
}

impl SshProtocol {
    /// The protocol's name on the wire, as its `Display` writes it.
    pub fn to_string(&self) -> (s: String)
        ensures
            s@ == ssh_protocol_name(*self),
    {
        match self {
            SshProtocol::Execute => String::from_str("ssh-execute"),
            SshProtocol::Shell => String::from_str("ssh-shell"),
            SshProtocol::HttpProxy => String::from_str("ssh-http-proxy"),
            SshProtocol::ConfigSync => String::from_str("ssh-config-sync"),
        }
    }
}

/// Request to execute a command.
#[derive(Debug, Clone)]
pub struct ExecuteRequest {
    pub client_id52: String,
    pub command: String,
    pub args: Vec<String>,
    /// Environment variables.
    pub env: Vec<(String, String)>,
    pub working_dir: Option<String>,
}

/// Response from command execution.
#[derive(Debug, Clone)]
pub struct ExecuteResponse {
    pub stdout: Vec<u8>,
    pub stderr: Vec<u8>,
    pub exit_code: i32,
}

/// Error during command execution.
#[derive(Debug, Clone)]
pub struct ExecuteError {
    pub message: String,
    pub error_code: ExecuteErrorCode,
}

#[derive(Debug, Clone, Copy, PartialEq, Eq, Structural)]
pub enum ExecuteErrorCode {
    PermissionDenied,
    CommandNotFound,
    ExecutionFailed,
    InvalidRequest,
}

/// Request to start an interactive shell.
#[derive(Debug, Clone)]
pub struct ShellRequest {
    pub client_id52: String,
    /// `(width, height)`.
    pub terminal_size: Option<(u16, u16)>,
    pub env: Vec<(String, String)>,
}

/// Shell session response (for the initial handshake).
#[derive(Debug, Clone)]
pub struct ShellResponse {
    pub session_id: String,
    pub banner: Option<String>,
}

/// Error during a shell session.
#[derive(Debug, Clone)]
pub struct ShellError {
    pub message: String,
    pub error_code: ShellErrorCode,
}

#[derive(Debug, Clone, Copy, PartialEq, Eq, Structural)]
pub enum ShellErrorCode {
    PermissionDenied,
    SessionFailed,
    InvalidRequest,
}

/// HTTP proxy request.
#[derive(Debug, Clone)]
pub struct HttpProxyRequest {
    pub client_id52: String,
    pub service_name: String,
    pub method: String,
    pub path: String,
    pub headers: Vec<(String, String)>,
    pub body: Vec<u8>,
}

/// HTTP proxy response.
#[derive(Debug, Clone)]
pub struct HttpProxyResponse {
    pub status_code: u16,
    pub headers: Vec<(String, String)>,
    pub body: Vec<u8>,
}

/// Error during HTTP proxying.
#[derive(Debug, Clone)]
pub struct HttpProxyError {
    pub message: String,
    pub error_code: HttpProxyErrorCode,
}

#[derive(Debug, Clone, Copy, PartialEq, Eq, Structural)]
pub enum HttpProxyErrorCode {
    PermissionDenied,
    ServiceNotFound,
    ServiceUnavailable,
    InvalidRequest,
    ProxyError,
}

/// Configuration sync request.
#[derive(Debug, Clone)]
pub struct ConfigSyncRequest {
    pub member_id52: String,
    pub current_config_hash: Option<String>,
}

/// Configuration sync response.
#[derive(Debug, Clone)]
pub struct ConfigSyncResponse {
    pub config_hash: String,
    /// The TOML configuration, only sent if the hash differs.
    pub config_data: Option<String>,
    pub needs_update: bool,
}

/// Error during config sync.
#[derive(Debug, Clone)]
pub struct ConfigSyncError {
    pub message: String,
    pub error_code: ConfigSyncErrorCode,
}

#[derive(Debug, Clone, Copy, PartialEq, Eq, Structural)]
pub enum ConfigSyncErrorCode {
    MemberNotFound,
    InvalidHash,
    SyncFailed,
}

/// `message (Code)`, the way the errors of this protocol display.
pub open spec fn error_text(message: Seq<char>, code: Seq<char>) -> Seq<char> {
    message + " ("@ + code + ")"@
}

fn render_error(message: &String, code: &str) -> (s: String)
    ensures
        s@ == error_text(message@, code@),
{
    let mut s = message.clone();
    s.append(" (");
    s.append(code);
    s.append(")");
    s
}

/// The variant name of an [`ExecuteErrorCode`].
pub open spec fn execute_error_code_name(c: ExecuteErrorCode) -> Seq<char> {
    match c {
        ExecuteErrorCode::PermissionDenied => "PermissionDenied"@,
        ExecuteErrorCode::CommandNotFound => "CommandNotFound"@,
        ExecuteErrorCode::ExecutionFailed => "ExecutionFailed"@,
        ExecuteErrorCode::InvalidRequest => "InvalidRequest"@,
    }
}

/// The variant name of a [`ShellErrorCode`].
pub open spec fn shell_error_code_name(c: ShellErrorCode) -> Seq<char> {
    match c {
        ShellErrorCode::PermissionDenied => "PermissionDenied"@,
        ShellErrorCode::SessionFailed => "SessionFailed"@,
        ShellErrorCode::InvalidRequest => "InvalidRequest"@,
    }
}

/// The variant name of an [`HttpProxyErrorCode`].
pub open spec fn http_proxy_error_code_name(c: HttpProxyErrorCode) -> Seq<char> {
    match c {
        HttpProxyErrorCode::PermissionDenied => "PermissionDenied"@,
        HttpProxyErrorCode::ServiceNotFound => "ServiceNotFound"@,
        HttpProxyErrorCode::ServiceUnavailable => "ServiceUnavailable"@,
        HttpProxyErrorCode::InvalidRequest => "InvalidRequest"@,
        HttpProxyErrorCode::ProxyError => "ProxyError"@,
    }
}

/// The variant name of a [`ConfigSyncErrorCode`].
pub open spec fn config_sync_error_code_name(c: ConfigSyncErrorCode) -> Seq<char> {
    match c {
        ConfigSyncErrorCode::MemberNotFound => "MemberNotFound"@,
        ConfigSyncErrorCode::InvalidHash => "InvalidHash"@,
        ConfigSyncErrorCode::SyncFailed => "SyncFailed"@,
    }
}

impl ExecuteError {
    /// The error as its `Display` writes it: `message (Code)`.
    pub fn to_string(&self) -> (s: String)
        ensures
            s@ == error_text(self.message@, execute_error_code_name(self.error_code)),
    {
        let code = match self.error_code {
            ExecuteErrorCode::PermissionDenied => "PermissionDenied",
            ExecuteErrorCode::CommandNotFound => "CommandNotFound",
            ExecuteErrorCode::ExecutionFailed => "ExecutionFailed",
            ExecuteErrorCode::InvalidRequest => "InvalidRequest",
        };
        render_error(&self.message, code)
    }
}

impl ShellError {
    /// The error as its `Display` writes it: `message (Code)`.
    pub fn to_string(&self) -> (s: String)
        ensures
            s@ == error_text(self.message@, shell_error_code_name(self.error_code)),
    {
        let code = match self.error_code {
            ShellErrorCode::PermissionDenied => "PermissionDenied",
            ShellErrorCode::SessionFailed => "SessionFailed",
            ShellErrorCode::InvalidRequest => "InvalidRequest",
        };
        render_error(&self.message, code)
    }
}

impl HttpProxyError {
    /// The error as its `Display` writes it: `message (Code)`.
    pub fn to_string(&self) -> (s: String)
        ensures
            s@ == error_text(self.message@, http_proxy_error_code_name(self.error_code)),
    {
        let code = match self.error_code {
            HttpProxyErrorCode::PermissionDenied => "PermissionDenied",
            HttpProxyErrorCode::ServiceNotFound => "ServiceNotFound",
            HttpProxyErrorCode::ServiceUnavailable => "ServiceUnavailable",
            HttpProxyErrorCode::InvalidRequest => "InvalidRequest",
            HttpProxyErrorCode::ProxyError => "ProxyError",
        };
        render_error(&self.message, code)
    }
}

impl ConfigSyncError {
    /// The error as its `Display` writes it: `message (Code)`.
    pub fn to_string(&self) -> (s: String)
        ensures
            s@ == error_text(self.message@, config_sync_error_code_name(self.error_code)),
    {
        let code = match self.error_code {
            ConfigSyncErrorCode::MemberNotFound => "MemberNotFound",
            ConfigSyncErrorCode::InvalidHash => "InvalidHash",
            ConfigSyncErrorCode::SyncFailed => "SyncFailed",
        };
        render_error(&self.message, code)
    }
}

} // verus!
