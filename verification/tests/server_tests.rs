use malai::agent::{idle_for, Agent, Connection};
use malai::client::{execute_reply_outcome, shell_reply_outcome, ShellOutcome};
use malai::cluster::ClusterManager;
use malai::cluster_config::{allow_list_admits, default_true, Config};
use malai::protocol::{
    ConfigSyncRequest, ExecuteError, ExecuteErrorCode, ExecuteRequest, ExecuteResponse, HttpProxyErrorCode,
    HttpProxyRequest, ShellError, ShellErrorCode, ShellRequest,
};
use malai::ssh_server::{execute_result, CommandOutcome, Server};

const CONFIG: &str = r#"
[cluster_manager]
id52 = "cm-id52"
private_key_file = "/secret/key"

[machine.web01]
id52 = "web01-id52"
accept_ssh = true
allow_from = "client1-id52"

[machine.web01.commands.ls]
allow_from = "*"

[machine.web01.services.admin]
port = 8080
allow_from = "admin-id52"

[machine.db]
id52 = "db-id52"
accept_ssh = true
allow_from = "*"

[machine.laptop]
id52 = "laptop-id52"
"#;

fn config() -> Config {
    Config::from_toml_str(CONFIG).ok().expect("config should parse")
}

fn server() -> Server {
    Server::new(config(), "web01".to_string(), fastn_id52::SecretKey::generate())
}

fn execute(client: &str, command: &str) -> ExecuteRequest {
    ExecuteRequest {
        client_id52: client.to_string(),
        command: command.to_string(),
        args: vec![],
        env: vec![],
        working_dir: None,
    }
}

#[test]
fn execute_permissions() {
    let s = server();
    assert!(s.execute_refusal(&execute("client1-id52", "bash")).is_none());
    assert!(s.execute_refusal(&execute("anyone", "ls")).is_none());
    let e = s.execute_refusal(&execute("anyone", "bash")).expect("refused");
    assert_eq!(e.error_code, ExecuteErrorCode::PermissionDenied);
    assert_eq!(e.message, "Permission denied: anyone cannot execute 'bash' on web01");
    assert_eq!(e.to_string(), "Permission denied: anyone cannot execute 'bash' on web01 (PermissionDenied)");
}

#[test]
fn shell_and_proxy_replies() {
    let s = server();
    let ok = s.shell_reply(&ShellRequest { client_id52: "client1-id52".to_string(), terminal_size: None, env: vec![] });
    assert_eq!(ok.error_code, ShellErrorCode::SessionFailed);
    assert_eq!(ok.message, "Interactive shell not yet implemented");
    let no = s.shell_reply(&ShellRequest { client_id52: "x".to_string(), terminal_size: None, env: vec![] });
    assert_eq!(no.error_code, ShellErrorCode::PermissionDenied);
    assert_eq!(no.message, "Permission denied: x cannot access shell on web01");

    let req = |client: &str| HttpProxyRequest {
        client_id52: client.to_string(),
        service_name: "admin".to_string(),
        method: "GET".to_string(),
        path: "/".to_string(),
        headers: vec![],
        body: vec![],
    };
    let ok = s.http_proxy_reply(&req("admin-id52"));
    assert_eq!(ok.error_code, HttpProxyErrorCode::ServiceUnavailable);
    assert_eq!(ok.message, "HTTP proxy not yet implemented");
    let no = s.http_proxy_reply(&req("client1-id52"));
    assert_eq!(no.error_code, HttpProxyErrorCode::PermissionDenied);
    assert_eq!(no.message, "Permission denied: client1-id52 cannot access service admin on web01");

    let sync = s.config_sync_reply(&ConfigSyncRequest { member_id52: "m".to_string(), current_config_hash: None });
    assert_eq!(sync.config_hash, "placeholder-hash");
    assert!(sync.config_data.is_none() && !sync.needs_update);
}

#[test]
fn server_start_needs_its_machine() {
    assert!(server().machine_config_for_start().is_ok());
    let lost = Server::new(config(), "nowhere".to_string(), fastn_id52::SecretKey::generate());
    assert_eq!(lost.machine_config_for_start().err(), Some("Machine 'nowhere' not found in configuration".to_string()));
    assert!(lost.get_exposed_services().is_empty());
}

#[test]
fn execute_results() {
    let r = execute_result(CommandOutcome::Finished { stdout: b"out".to_vec(), stderr: vec![], code: None }).ok().unwrap();
    assert_eq!((r.stdout, r.exit_code), (b"out".to_vec(), -1));
    let e = execute_result(CommandOutcome::SpawnFailed("nope".to_string())).err().unwrap();
    assert_eq!((e.error_code, e.message.as_str()), (ExecuteErrorCode::CommandNotFound, "Failed to execute command: nope"));
    let e = execute_result(CommandOutcome::WaitFailed("gone".to_string())).err().unwrap();
    assert_eq!((e.error_code, e.message.as_str()), (ExecuteErrorCode::ExecutionFailed, "Failed to wait for command: gone"));
}

#[test]
fn client_reply_texts() {
    let ok = execute_reply_outcome(Ok(Ok(ExecuteResponse { stdout: vec![1], stderr: vec![], exit_code: 3 }))).ok().unwrap();
    assert_eq!(ok.exit_code, 3);
    let e = execute_reply_outcome(Ok(Err(ExecuteError { message: "m".to_string(), error_code: ExecuteErrorCode::InvalidRequest })));
    assert_eq!(e.err().unwrap(), "SSH execute error: m (InvalidRequest)");
    assert_eq!(execute_reply_outcome(Err("down".to_string())).err().unwrap(), "Failed to call remote server: down");
    let s = shell_reply_outcome(Ok(Err(ShellError { message: "no".to_string(), error_code: ShellErrorCode::PermissionDenied })));
    assert!(matches!(s, ShellOutcome::Stderr(m) if m == "Error: no (PermissionDenied)"));
}

#[test]
fn access_lists_and_roles() {
    let c = config();
    let mut machines = c.get_accessible_machines("client1-id52");
    machines.sort();
    assert_eq!(machines, vec!["db".to_string(), "web01".to_string()]);
    assert_eq!(c.get_accessible_machines("stranger"), vec!["db".to_string()]);
    assert!(allow_list_admits("a-id52,b-id52", "b-id52"));
    assert!(allow_list_admits("*", "anyone"));
    assert!(!allow_list_admits("a-id52", "c-id52"));
    assert!(default_true());
    assert!(!c.can_access_service("admin-id52", "db", "admin"));
}

#[test]
fn cluster_manager_members() {
    let mut m = ClusterManager::from_loaded(config(), "cluster.toml".to_string(), "h1".to_string());
    assert_eq!(m.config_hash(), "h1");
    let member = m.get_member_config("web01-id52");
    assert!(member.cluster_manager.private_key_file.is_none());
    assert!(!m.is_member_config_current("web01-id52"));
    m.update_member_hash("web01-id52".to_string(), "h1".to_string());
    assert!(m.is_member_config_current("web01-id52"));
    m.update_member_hash("web01-id52".to_string(), "old".to_string());
    assert!(!m.is_member_config_current("web01-id52"));
    let mut members = m.get_all_members();
    members.sort();
    assert_eq!(members, vec!["db".to_string(), "laptop".to_string(), "web01".to_string()]);
}

#[test]
fn agent_environment() {
    let mut agent = Agent::new("/data".to_string(), "me".to_string());
    assert_eq!(agent.get_socket_path(), "/data/ssh/agent.sock");
    assert_eq!(agent.environment_lines(true, true), vec![
        "MALAI_SSH_AGENT=/data/ssh/agent.sock".to_string(),
        "MALAI_LOCKDOWN_MODE=true".to_string(),
    ]);
    agent.set_http_proxy_port(8123);
    assert_eq!(agent.get_http_proxy_port(), Some(8123));
    assert_eq!(agent.environment_lines(false, true), vec![
        "MALAI_SSH_AGENT=/data/ssh/agent.sock".to_string(),
        "HTTP_PROXY=http://127.0.0.1:8123".to_string(),
    ]);
    assert!(idle_for(10, 5));
    assert!(!idle_for(5, 5));
}

#[test]
fn connection_use_marks() {
    let mut c = Connection::new("server-id52".to_string());
    let old = std::time::Instant::now() - std::time::Duration::from_secs(300);
    c.mark_used_at(old);
    assert_eq!(c.last_used, old);
    assert_eq!(c.server_id52, "server-id52");
    assert!(c.is_idle(std::time::Duration::from_secs(60)));
    c.update_last_used();
    assert!(c.last_used > old);
    assert!(!c.is_idle(std::time::Duration::from_secs(60)));
}

#[test]
fn connection_made_at_an_instant() {
    let then = std::time::Instant::now() - std::time::Duration::from_secs(120);
    let c = Connection::new_at("s".to_string(), then);
    assert_eq!(c.last_used, then);
    assert_eq!(c.server_id52, "s");
    assert!(c.is_idle(std::time::Duration::from_secs(60)));
    let fresh = Connection::new("t".to_string());
    assert!(!fresh.is_idle(std::time::Duration::from_secs(60)));
}
