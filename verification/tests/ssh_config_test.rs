use malai::cluster_config::{Config, MachineRole};

fn parse(text: &str) -> Config {
    Config::from_toml_str(text).expect("Config should parse")
}

#[test]
fn test_config_parsing_basic() {
    let config_toml = r#"
[cluster_manager]
id52 = "cluster-manager-id52-test"

[machine.web01]
id52 = "web01-id52-test"
accept_ssh = true
allow_from = "*"

[machine.laptop]
id52 = "laptop-id52-test"

[group.servers]
members = "web01"
"#;

    let config = parse(config_toml);

    // Test basic structure
    assert_eq!(config.cluster_manager.id52, "cluster-manager-id52-test");
    assert_eq!(config.machines.len(), 2);
    assert_eq!(config.groups.len(), 1);

    // Test machine properties
    let web01 = config.machine("web01").expect("web01 should exist");
    assert_eq!(web01.id52, "web01-id52-test");
    assert!(web01.accept_ssh);
    assert_eq!(web01.allow_from.as_ref().unwrap(), "*");

    let laptop = config.machine("laptop").expect("laptop should exist");
    assert_eq!(laptop.id52, "laptop-id52-test");
    assert!(!laptop.accept_ssh); // defaults to false
}

#[test]
fn ssh_config_test_test_role_detection() {
    let config_toml = r#"
[cluster_manager]
id52 = "manager-id52"

[machine.server1]
id52 = "server1-id52"
accept_ssh = true

[machine.client1]
id52 = "client1-id52"
"#;

    let config = parse(config_toml);

    assert_eq!(config.get_local_role("manager-id52"), MachineRole::ClusterManager);
    assert_eq!(config.get_local_role("server1-id52"), MachineRole::SshServer("server1".to_string()));
    assert_eq!(config.get_local_role("client1-id52"), MachineRole::ClientOnly("client1".to_string()));
    assert_eq!(config.get_local_role("unknown-id52"), MachineRole::Unknown);
}

#[test]
fn test_permission_checking() {
    let config_toml = r#"
[cluster_manager]
id52 = "manager-id52"

[machine.web01]
id52 = "web01-id52"
accept_ssh = true
allow_from = "client1-id52,admin-id52"

[machine.web01.command.ls]
allow_from = "readonly-id52"

[machine.web01.service.api]
port = 8080
allow_from = "client1-id52"

[machine.client1]
id52 = "client1-id52"
"#;

    let config = parse(config_toml);

    // Test SSH access permissions
    assert!(config.can_execute_command("client1-id52", "web01", "bash"));
    assert!(!config.can_execute_command("unknown-id52", "web01", "bash"));
    assert!(!config.can_execute_command("client1-id52", "client1", "bash")); // client1 doesn't accept SSH

    // Test command-specific permissions
    assert!(config.can_execute_command("readonly-id52", "web01", "ls"));
    assert!(!config.can_execute_command("client1-id52", "web01", "ls")); // needs specific permission for ls

    // Test service access permissions
    assert!(config.can_access_service("client1-id52", "web01", "api"));
    assert!(!config.can_access_service("unknown-id52", "web01", "api"));
}

#[test]
fn test_basic_toml_parsing() {
    let config_toml = r#"
[cluster_manager]
id52 = "cluster-manager-id52-test"
use_keyring = true

[machine.web01]  
id52 = "web01-id52-test"
accept_ssh = true
allow_from = "client1-id52"

[machine.client1]
id52 = "client1-id52-test"
"#;

    let parsed = parse(config_toml);

    assert_eq!(parsed.cluster_manager.id52, "cluster-manager-id52-test");
    assert_eq!(parsed.machines.len(), 2);
    assert!(parsed.machine("web01").is_some());
    assert!(parsed.machine("client1").is_some());
}

#[test]
fn test_expected_config_structure() {
    let expected_config = r#"[cluster_manager]
id52 = "abc123def456"
use_keyring = true

[machine.web01]
id52 = "server123id456" 
accept_ssh = true
allow_from = "*"

[machine.laptop]
id52 = "client123id456"
"#;

    let parsed = parse(expected_config);

    assert_eq!(parsed.cluster_manager.id52, "abc123def456");
    assert!(parsed.cluster_manager.use_keyring);

    let web01 = parsed.machine("web01").unwrap();
    assert_eq!(web01.id52, "server123id456");
    assert!(web01.accept_ssh);

    let laptop = parsed.machine("laptop").unwrap();
    assert_eq!(laptop.id52, "client123id456");
    assert!(!laptop.accept_ssh);
}
