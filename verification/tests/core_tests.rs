use malai::agent::{Agent, AgentUtils, Connection};
use malai::client::Client;
use malai::cluster::ClusterManager;
use malai::cluster_config::{Config, MachineRole};
use malai::protocol::SshProtocol;
use malai::ssh_server::Server;
use std::path::PathBuf;

fn parse(text: &str) -> Config {
    match Config::from_toml_str(text) {
        Ok(c) => c,
        Err(e) => panic!("config should parse: {:?}", e),
    }
}

#[test]
fn test_agent_creation() {
    let temp_dir = tempfile::TempDir::new().unwrap();
    let data_dir = temp_dir.path().to_path_buf();
    let client_id52 = "test-client-id52".to_string();

    let agent = Agent::new(data_dir.to_str().unwrap().to_string(), client_id52);

    assert_eq!(PathBuf::from(agent.get_socket_path().as_str()), data_dir.join("ssh").join("agent.sock"));
    assert_eq!(agent.get_client_id52(), "test-client-id52");
    assert_eq!(agent.get_connection_count(), 0);
    assert!(agent.get_http_proxy_port().is_none());
}

#[test]
fn test_connection_idle_detection() {
    let mut connection = Connection::new("test-server-id52".to_string());

    // Initially not idle
    assert!(!connection.is_idle(std::time::Duration::from_secs(60)));

    // Update last used time to simulate old connection
    connection.last_used = std::time::Instant::now() - std::time::Duration::from_secs(120);

    // Should be idle now
    assert!(connection.is_idle(std::time::Duration::from_secs(60)));
}

#[test]
fn test_agent_utils_lockdown_detection() {
    assert!(!AgentUtils::is_lockdown_mode(None));
    assert!(AgentUtils::is_lockdown_mode(Some("true")));
    assert!(!AgentUtils::is_lockdown_mode(Some("false")));
}

#[test]
fn lockdown_value_in_any_case() {
    assert!(AgentUtils::is_lockdown_mode(Some("TRUE")));
    assert!(AgentUtils::is_lockdown_mode(Some("True")));
    assert!(!AgentUtils::is_lockdown_mode(Some(" true")));
    assert!(!AgentUtils::is_lockdown_mode(Some("truee")));
    assert!(!AgentUtils::is_lockdown_mode(Some("")));
}

#[test]
fn test_server_address_parsing() {
    let secret_key = fastn_id52::SecretKey::generate();
    let client = Client::new(secret_key, "/tmp".to_string());

    // Test domain-based address
    let result = client.parse_server_address("web01.company.com");
    assert!(result.is_ok());
    let (_server_key, cluster_info) = result.unwrap();
    assert!(cluster_info.is_domain);
    assert_eq!(cluster_info.cluster_id, "company.com");

    // Test ID-based address
    let result = client.parse_server_address("web01.cluster-id52");
    assert!(result.is_ok());
    let (_server_key, cluster_info) = result.unwrap();
    assert!(!cluster_info.is_domain);
    assert_eq!(cluster_info.cluster_id, "cluster-id52");
}

#[test]
fn test_cluster_directory_path() {
    let secret_key = fastn_id52::SecretKey::generate();
    let client = Client::new(secret_key, "/home/user/.local/share/malai".to_string());

    let cluster_dir = client.get_cluster_dir("test-cluster");
    assert_eq!(PathBuf::from(cluster_dir), PathBuf::from("/home/user/.local/share/malai/ssh/clusters/test-cluster"));
}

#[test]
fn test_client_creation() {
    let secret_key = fastn_id52::SecretKey::generate();
    let data_dir = PathBuf::from("/tmp/malai");
    // This version of `SecretKey` has no `Clone`; the same key is rebuilt from its bytes.
    let same_key = fastn_id52::SecretKey::from_bytes(&secret_key.to_bytes());
    let client = Client::new(same_key, data_dir.to_str().unwrap().to_string());

    assert_eq!(PathBuf::from(client.data_dir.as_str()), data_dir);
    assert_eq!(client.secret_key.public_key(), secret_key.public_key());
}

#[test]
fn test_member_config_filtering() {
    let toml_content = r#"
[cluster_manager]
id52 = "cluster-manager-id52"
use_keyring = true
private_key = "secret-key-here"

[servers.web01]
id52 = "web01-id52"
"#;

    let manager = ClusterManager::from_loaded(parse(toml_content), "cluster.toml".to_string(), "hash".to_string());
    let member_config = manager.get_member_config("web01-id52");

    // Sensitive data should be removed
    assert!(member_config.cluster_manager.private_key.is_none());
    assert!(member_config.cluster_manager.private_key_file.is_none());
}

#[test]
fn test_config_parsing() {
    let toml_content = r#"
[cluster_manager]
id52 = "test-cluster-manager-id52"
use_keyring = true

[machine.web01]
id52 = "web01-id52"
accept_ssh = true
allow_from = "laptop-id52,admin-id52"

[machine.web01.commands.ls]
allow_from = "readonly-id52"

[machine.web01.services.admin]
port = 8080
allow_from = "admin-id52"

[machine.laptop]
id52 = "laptop-id52"

[groups.web_servers]
members = "web01,web02"
"#;

    let config = parse(toml_content);
    assert_eq!(config.cluster_manager.id52, "test-cluster-manager-id52");
    assert_eq!(config.machines.len(), 2);
    assert_eq!(config.groups.len(), 1);
    assert!(config.machine("web01").unwrap().accept_ssh);
    assert!(!config.machine("laptop").unwrap().accept_ssh);
}

#[test]
fn test_access_control() {
    let toml_content = r#"
[cluster_manager]
id52 = "cluster-manager-id52"

[machine.web01]
id52 = "web01-id52"
accept_ssh = true
allow_from = "client1-id52,client2-id52"

[machine.web01.commands.ls]
allow_from = "readonly-client-id52"

[machine.laptop]
id52 = "laptop-id52"
"#;

    let config = parse(toml_content);

    // Test machine SSH access
    assert!(config.can_execute_command("client1-id52", "web01", "bash"));
    assert!(!config.can_execute_command("client3-id52", "web01", "bash"));

    // Test command-specific access
    assert!(config.can_execute_command("readonly-client-id52", "web01", "ls"));
    assert!(!config.can_execute_command("readonly-client-id52", "web01", "bash"));

    // Test client-only machine cannot accept SSH
    assert!(!config.can_execute_command("client1-id52", "laptop", "bash"));
}

#[test]
fn config_test_role_detection() {
    let toml_content = r#"
[cluster_manager]
id52 = "manager-id52"

[machine.web01]
id52 = "web01-id52"
accept_ssh = true

[machine.laptop]  
id52 = "laptop-id52"
"#;

    let config = parse(toml_content);

    assert_eq!(config.get_local_role("manager-id52"), MachineRole::ClusterManager);
    assert_eq!(config.get_local_role("web01-id52"), MachineRole::SshServer("web01".to_string()));
    assert_eq!(config.get_local_role("laptop-id52"), MachineRole::ClientOnly("laptop".to_string()));
    assert_eq!(config.get_local_role("unknown-id52"), MachineRole::Unknown);
}

#[test]
fn test_protocol_display() {
    assert_eq!(SshProtocol::Execute.to_string(), "ssh-execute");
    assert_eq!(SshProtocol::Shell.to_string(), "ssh-shell");
    assert_eq!(SshProtocol::HttpProxy.to_string(), "ssh-http-proxy");
    assert_eq!(SshProtocol::ConfigSync.to_string(), "ssh-config-sync");
}

fn create_test_config() -> Config {
    let toml_content = r#"
[cluster_manager]
id52 = "cluster-manager-id52"

[machine.web01]
id52 = "web01-id52"
accept_ssh = true
allow_from = "client1-id52,client2-id52"

[machine.web01.commands.ls]
allow_from = "readonly-client-id52"

[machine.web01.services.admin]
port = 8080
allow_from = "admin-client-id52"

[machine.client]
id52 = "client1-id52"
"#;
    parse(toml_content)
}

#[test]
fn test_server_creation() {
    let config = create_test_config();
    let secret_key = fastn_id52::SecretKey::generate();
    let server = Server::new(config, "web01".to_string(), secret_key);

    assert_eq!(server.machine_name, "web01");
    assert_eq!(server.config.machines.len(), 2);
}

#[test]
fn test_service_access_control() {
    let config = create_test_config();
    let secret_key = fastn_id52::SecretKey::generate();
    let server = Server::new(config, "web01".to_string(), secret_key);

    // admin-client-id52 should be able to access admin service
    assert!(server.can_client_access_service("admin-client-id52", "admin"));

    // client1-id52 should not be able to access admin service
    assert!(!server.can_client_access_service("client1-id52", "admin"));
}

#[test]
fn test_exposed_services() {
    let config = create_test_config();
    let secret_key = fastn_id52::SecretKey::generate();
    let server = Server::new(config, "web01".to_string(), secret_key);

    let services = server.get_exposed_services();
    assert_eq!(services.len(), 1);
    assert_eq!(services[0].0, "admin");
    assert_eq!(services[0].1, 8080);
}

#[test]
fn plural_section_name_wins() {
    let text = "[cluster_manager]\nid52 = \"cm\"\n[machine.a]\nid52 = \"a\"\n[machines.b]\nid52 = \"b\"\n[group.g]\nmembers = \"a\"\n[groups.h]\nmembers = \"b\"\n";
    let config = parse(text);
    assert_eq!(config.machines.len(), 1);
    assert_eq!(config.machines[0].0, "b");
    assert_eq!(config.groups.len(), 1);
    assert_eq!(config.groups[0].0, "h");
    let singular = parse("[cluster_manager]\nid52 = \"cm\"\n[machine.a]\nid52 = \"a\"\n");
    assert_eq!(singular.machines[0].0, "a");
    let bad_plural = Config::from_toml_str("machines = 1\n[cluster_manager]\nid52 = \"cm\"\n[machine.a]\nid52 = \"a\"\n");
    assert_eq!(bad_plural.unwrap_err(), malai::toml_doc::ParseFailure::Content(malai::toml_doc::ConfigParseError::WrongType));
    let bad_singular = parse("machine = 1\n[cluster_manager]\nid52 = \"cm\"\n[machines.b]\nid52 = \"b\"\n");
    assert_eq!(bad_singular.machines[0].0, "b");
}

#[test]
fn config_syntax_errors_keep_the_parser_message() {
    let text = "[cluster_manager\nid52 = 1";
    let expected = toml::from_str::<toml::Table>(text).unwrap_err().to_string();
    let e = Config::from_toml_str(text).unwrap_err();
    assert_eq!(e, malai::toml_doc::ParseFailure::Syntax(expected.clone()));
    assert_eq!(e.message(), expected);
    let table = vec![("cluster_manager".to_string(), malai::toml_doc::TomlValue::Table(vec![
        ("id52".to_string(), malai::toml_doc::TomlValue::Str("cm".to_string())),
    ]))];
    let c = Config::from_table(&table).expect("table should read");
    assert_eq!(c.cluster_manager.id52, "cm");
    assert!(c.machines.is_empty());
    assert_eq!(Config::from_table(&[]).unwrap_err(), malai::toml_doc::ConfigParseError::MissingField);
}

#[test]
fn allow_from_is_a_list_of_entries() {
    let config = parse(r#"
[cluster_manager]
id52 = "cm"

[machine.web01]
id52 = "web01-id52"
accept_ssh = true
allow_from = "client1-id52,client2-id52"

[machine.web01.commands.ls]
allow_from = "admin-client-id52"

[machine.web01.services.admin]
port = 8080
allow_from = "admin-client-id52"

[machine.web01.services.open]
port = 8081
allow_from = "x-id52,*"

[machine.web01.services.starry]
port = 8082
allow_from = "a*,client-id52 "
"#);
    assert!(!config.can_execute_command("client-id52", "web01", "ls"));
    assert!(config.can_execute_command("admin-client-id52", "web01", "ls"));
    assert!(!config.can_access_service("client-id52", "web01", "admin"));
    assert!(config.can_access_service("admin-client-id52", "web01", "admin"));
    assert!(!config.can_execute_command("client1", "web01", "bash"));
    assert!(!config.can_execute_command("id52", "web01", "bash"));
    assert!(config.can_execute_command("client2-id52", "web01", "bash"));
    assert!(config.can_access_service("anyone", "web01", "open"));
    assert!(!config.can_access_service("anyone", "web01", "starry"));
    assert!(!config.can_access_service("client-id52", "web01", "starry"));
    assert!(config.can_access_service("client-id52 ", "web01", "starry"));
    assert_eq!(config.get_accessible_machines("client1"), Vec::<String>::new());
    assert_eq!(config.get_accessible_machines("client1-id52"), vec!["web01".to_string()]);
}
