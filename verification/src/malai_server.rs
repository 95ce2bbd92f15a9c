//! The malai server's two protocols, configuration updates and command
//! execution: their messages, and the replies that the server and its
//! clients make of each outcome.

use vstd::prelude::*;
use crate::text::{push_text, string_from_chars};

verus! {

/// The protocols a malai server answers.
#[derive(Debug, Clone, Copy, PartialEq, Eq, Structural)]
pub enum MalaiProtocol {
    /// A cluster manager sends a machine its configuration.
    ConfigUpdate,
    /// A machine asks another to run a command.
    ExecuteCommand,
}

impl MalaiProtocol {
    /// The protocol's name, as its `Display` writes it.
    pub fn to_string(&self) -> (s: String)
        ensures
            s@ == (match self {
                MalaiProtocol::ConfigUpdate => "ConfigUpdate"@,
                MalaiProtocol::ExecuteCommand => "ExecuteCommand"@,
            }),
    {
        match self {
            MalaiProtocol::ConfigUpdate => String::from_str("ConfigUpdate"),
            MalaiProtocol::ExecuteCommand => String::from_str("ExecuteCommand"),
        }
    }
}

/// A configuration sent to a machine.
pub struct ConfigRequest {
    pub sender_id52: String,
    pub config_content: String,
    pub timestamp: String,
}

/// A machine's acknowledgement of a configuration.
pub struct ConfigResponse {
    pub success: bool,
    pub message: String,
}

/// Why a machine could not take a configuration.
pub struct ConfigError {
    pub message: String,
}

/// A command to run on a machine.
pub struct CommandRequest {
    pub client_id52: String,
    pub command: String,
    pub args: Vec<String>,
}

/// What a command printed and how it ended.
pub struct CommandResponse {
    pub stdout: Vec<u8>,
    pub stderr: Vec<u8>,
    pub exit_code: i32,
}

/// Why a command was not run.
pub struct CommandError {
    pub error_type: String,
    pub message: String,
}

/// The reply to a configuration update, from the outcome of saving it (the
/// error of saving, as text).
pub fn config_update_reply(saved: Result<(), String>) -> (r: Result<ConfigResponse, ConfigError>)
    ensures
        match (saved, r) {
            (Ok(()), Ok(resp)) => resp.success && resp.message@ == "Config received and saved successfully"@,
            (Err(e), Err(err)) => err.message@ == "Failed to save config: "@ + e@,
            _ => false,
        },
{
    match saved {
        Ok(()) => Ok(ConfigResponse {
            success: true,
            message: String::from_str("Config received and saved successfully"),
        }),
        Err(e) => {
            let mut m: Vec<char> = Vec::new();
            push_text(&mut m, "Failed to save config: ");
            push_text(&mut m, e.as_str());
            Err(ConfigError { message: string_from_chars(m.as_slice()) })
        },
    }
}

/// Admits a command only on a machine that holds a configuration.
pub fn command_gate(config_exists: bool) -> (r: Result<(), CommandError>)
    ensures
        r is Ok <==> config_exists,
        r matches Err(e) ==> e.error_type@ == "no_config"@ && e.message@ == "Machine has no configuration"@,
{
    if config_exists {
        Ok(())
    } else {
        Err(CommandError {
            error_type: String::from_str("no_config"),
            message: String::from_str("Machine has no configuration"),
        })
    }
}

/// How running a command went: its exit status (none where a signal ended
/// it), what it printed to stdout and stderr; or why it could not start.
pub struct CommandOutput {
    pub status_code: Option<i32>,
    pub stdout: Vec<u8>,
    pub stderr: Vec<u8>,
}

/// The reply to a command request from how running the command went; an
/// exit without a status code is reported as `-1`.
pub fn command_execution_reply(outcome: Result<CommandOutput, String>) -> (r: Result<CommandResponse, CommandError>)
    ensures
        match (outcome, r) {
            (Ok(o), Ok(resp)) => resp.stdout@ == o.stdout@ && resp.stderr@ == o.stderr@
                && resp.exit_code == (match o.status_code {
                    Some(c) => c,
                    None => -1i32,
                }),
            (Err(e), Err(err)) => err.error_type@ == "execution_failed"@ && err.message@ == e@,
            _ => false,
        },
{
    match outcome {
        Ok(o) => {
            let exit_code = match o.status_code {
                Some(c) => c,
                None => -1,
            };
            Ok(CommandResponse { stdout: o.stdout, stderr: o.stderr, exit_code })
        },
        Err(e) => Err(CommandError { error_type: String::from_str("execution_failed"), message: e }),
    }
}

/// What a client reports of sending a configuration, from the reply (or the
/// transport's failure, as text): the machine's message, or the error.
pub fn send_config_outcome(reply: Result<Result<ConfigResponse, ConfigError>, String>) -> (r: Result<String, String>)
    ensures
        match (reply, r) {
            (Ok(Ok(resp)), Ok(m)) => m@ == resp.message@,
            (Ok(Err(e)), Err(m)) => m@ == "Config error: "@ + e.message@,
            (Err(e), Err(m)) => m@ == "P2P failed: "@ + e@,
            _ => false,
        },
{
    match reply {
        Ok(Ok(resp)) => Ok(resp.message),
        Ok(Err(e)) => {
            let mut m: Vec<char> = Vec::new();
            push_text(&mut m, "Config error: ");
            push_text(&mut m, e.message.as_str());
            Err(string_from_chars(m.as_slice()))
        },
        Err(e) => {
            let mut m: Vec<char> = Vec::new();
            push_text(&mut m, "P2P failed: ");
            push_text(&mut m, e.as_str());
            Err(string_from_chars(m.as_slice()))
        },
    }
}

/// What a client reports of sending a command, from the reply (or the
/// transport's failure, as text): the response, or the error.
pub fn send_command_outcome(reply: Result<Result<CommandResponse, CommandError>, String>) -> (r: Result<CommandResponse, String>)
    ensures
        match (reply, r) {
            (Ok(Ok(resp)), Ok(x)) => x.stdout@ == resp.stdout@ && x.stderr@ == resp.stderr@ && x.exit_code == resp.exit_code,
            (Ok(Err(e)), Err(m)) => m@ == "Command error: "@ + e.error_type@ + ": "@ + e.message@,
            (Err(e), Err(m)) => m@ == "P2P failed: "@ + e@,
            _ => false,
        },
{
    match reply {
        Ok(Ok(resp)) => Ok(resp),
        Ok(Err(e)) => {
            let mut m: Vec<char> = Vec::new();
            push_text(&mut m, "Command error: ");
            push_text(&mut m, e.error_type.as_str());
            push_text(&mut m, ": ");
            push_text(&mut m, e.message.as_str());
            Err(string_from_chars(m.as_slice()))
        },
        Err(e) => {
            let mut m: Vec<char> = Vec::new();
            push_text(&mut m, "P2P failed: ");
            push_text(&mut m, e.as_str());
            Err(string_from_chars(m.as_slice()))
        },
    }
}

} // verus!
