//! The command line of malai: its commands as plain values, and the choices
//! made from them before any work starts.

use vstd::prelude::*;
use crate::text::{path_join, path_join_text, push_text, string_from_chars};

verus! {

/// A command of `malai`.
pub enum Command {
    Http { port: u16, host: String, bridge: String, public: bool },
    Browse { url: String },
    Tcp { port: u16, host: String, public: bool },
    HttpBridge { proxy_target: Option<String>, port: u16 },
    TcpBridge { proxy_target: String, port: u16 },
    Folder { path: String, bridge: String, public: bool },
    Run { home: Option<String> },
    HttpProxyRemote { public: bool },
    HttpProxy { remote: String, port: u16 },
    Keygen { file: Option<String> },
    Cluster { cluster_command: ClusterCommand },
    Machine { machine_command: MachineCommand },
    Daemon { environment: bool, foreground: bool },
    Info,
    Status,
    TestSimple,
    StartServer,
    TestReal,
    ScanRoles,
    Rescan { check: bool, cluster_name: Option<String> },
    Service { service_command: ServiceCommand },
    Config { config_command: ConfigCommand },
    Identity { identity_command: IdentityCommand },
    /// `malai <machine> [command] [args...]`.
    External(Vec<String>),
}

/// `malai cluster ...`.
pub enum ClusterCommand {
    Init { cluster_name: String },
}

/// `malai machine ...`.
pub enum MachineCommand {
    Init { cluster_manager: String, cluster_alias: String },
}

/// `malai service ...`.
pub enum ServiceCommand {
    Add { service_type: String, name: String, target: String },
    Remove { name: String },
    List,
}

/// `malai identity ...`.
pub enum IdentityCommand {
    Create { name: Option<String> },
    List,
    Export { name: String },
    Import { file: String },
    Delete { name: String },
}

/// `malai config ...`.
pub enum ConfigCommand {
    Download { cluster: String },
    Upload { file: String, force: bool },
    Edit { cluster: String },
    Show { cluster: String },
    Validate { file: String },
}

/// What `malai <machine> [command] [args...]` asks for.
pub enum ExternalAction {
    /// No machine was named: show the usage.
    Usage,
    /// Only a machine was named: an interactive shell on it.
    Shell { machine: String },
    /// A command with its arguments, to run on a machine.
    Run { machine: String, command: String, args: Vec<String> },
}

/// The views of a list of strings.
pub open spec fn texts(v: Seq<String>) -> Seq<Seq<char>> {
    v.map_values(|s: String| s@)
}

/// Reads the words after `malai` that name no known command: the first is a
/// machine, the second a command, the rest its arguments.
pub fn external_action(args: &Vec<String>) -> (a: ExternalAction)
    ensures
        match a {
            ExternalAction::Usage => args@.len() == 0,
            ExternalAction::Shell { machine } => args@.len() == 1 && machine@ == args@[0]@,
            ExternalAction::Run { machine, command, args: rest } => args@.len() >= 2 && machine@ == args@[0]@
                && command@ == args@[1]@ && texts(rest@) == texts(args@).skip(2),
        },
{
    if args.len() == 0 {
        return ExternalAction::Usage;
    }
    if args.len() == 1 {
        return ExternalAction::Shell { machine: args[0].clone() };
    }
    let mut rest: Vec<String> = Vec::new();
    let mut i: usize = 2;
    while i < args.len()
        invariant
            2 <= i <= args@.len(),
            texts(rest@) =~= texts(args@).subrange(2, i as int),
        decreases args.len() - i,
    {
        let ghost before = rest@;
        let c = args[i].clone();
        assert(c@ == args@[i as int]@);
        rest.push(c);
        assert(texts(rest@) =~= texts(before).push(args@[i as int]@));
        i = i + 1;
    }
    ExternalAction::Run { machine: args[0].clone(), command: args[1].clone(), args: rest }
}

/// The malai home folder: `MALAI_HOME` where it is set, else `malai` in the
/// user's data folder (an empty path where there is none).
pub fn malai_home(env_value: Option<String>, data_dir: Option<String>) -> (h: String)
    ensures
        h@ == (match env_value {
            Some(v) => v@,
            None => path_join(match data_dir {
                Some(d) => d@,
                None => Seq::<char>::empty(),
            }, "malai"@),
        }),
{
    match env_value {
        Some(v) => v,
        None => match data_dir {
            Some(d) => path_join_text(d.as_str(), "malai"),
            None => {
                let empty = String::new();
                assert(empty@ == Seq::<char>::empty());
                path_join_text(empty.as_str(), "malai")
            },
        },
    }
}

/// The two lines `malai daemon -e` prints: the home folder and the daemon's
/// socket in it.
pub fn daemon_environment_lines(malai_home: &str) -> (l: (String, String))
    ensures
        l.0@ == "MALAI_HOME="@ + malai_home@,
        l.1@ == "MALAI_DAEMON_SOCK="@ + path_join(malai_home@, "malai.sock"@),
{
    let mut a: Vec<char> = Vec::new();
    push_text(&mut a, "MALAI_HOME=");
    push_text(&mut a, malai_home);
    let sock = path_join_text(malai_home, "malai.sock");
    let mut b: Vec<char> = Vec::new();
    push_text(&mut b, "MALAI_DAEMON_SOCK=");
    push_text(&mut b, sock.as_str());
    (string_from_chars(a.as_slice()), string_from_chars(b.as_slice()))
}

} // verus!
