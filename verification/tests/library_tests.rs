use malai::announce::{public_check, InfoMode, Segment, Tone};
use malai::bridge::{bridge_peer_id, listening_line, upgrade_target, ProxyData};
use malai::browse::parse_url;
use malai::cli::{
    choose_config_file, choose_identity_key, command_route, find_target_id52, find_target_id52_in_table, key_file_name,
    parse_machine_address, CommandRoute, KeyRole, TargetError,
};
use malai::commands::{daemon_environment_lines, external_action, malai_home, ExternalAction};
use malai::config_manager::{
    daemon_not_running, detect_cluster_role, identity_file_name, identity_key_text_valid,
    validate_config_text, config_text_report, check_outcomes, ClusterRole, ConfigTally,
};
use malai::counters::GlobalCounter;
use malai::skynet::{stream_action, PeerMessage, StreamAction};
use malai::toml_doc::TomlValue;
use malai::daemon_socket::{
    daemon_action, daemon_response_outcome, missing_socket_message, rescan_reply, rescan_request,
    DaemonMessage, RescanAction,
};
use malai::machine_init::{
    check_cluster_manager, cluster_info_text, local_exit_summary, notify_outcome, parse_remote_address,
    remote_call_outcome, NotifyOutcome, RemoteCallResult,
};
use malai::malai_server::{
    command_execution_reply, command_gate, config_update_reply, send_command_outcome, send_config_outcome,
    CommandOutput, ConfigResponse, MalaiProtocol,
};
use malai::simple_server::{handle_echo, EchoRequest};
use malai::text::{trim_text, u64_to_decimal, u64_to_hex};

fn render(lines: &[Vec<Segment>]) -> Vec<String> {
    lines.iter().map(|l| l.iter().map(|s| s.text.as_str()).collect::<String>()).collect()
}

#[test]
fn machine_address_parsing() {
    assert_eq!(parse_machine_address("web01.prod"), Ok(("web01".to_string(), "prod".to_string())));
    assert_eq!(parse_machine_address("web01"), Err("Invalid format. Use: machine.cluster".to_string()));
    assert_eq!(parse_machine_address("a.b.c"), Err("Invalid format. Use: machine.cluster".to_string()));
    assert_eq!(parse_machine_address("a."), Ok(("a".to_string(), "".to_string())));
}

#[test]
fn key_and_config_choice() {
    assert_eq!(choose_identity_key(true, false, "/h/c", "c"), Ok(KeyRole::ClusterManager));
    assert_eq!(choose_identity_key(false, true, "/h/c", "c"), Ok(KeyRole::Machine));
    assert_eq!(
        choose_identity_key(true, true, "/h/c", "c"),
        Err("Configuration error: Both cluster.private-key and machine.private-key exist in /h/c".to_string())
    );
    assert_eq!(choose_identity_key(false, false, "/h/c", "c"), Err("No identity found for cluster: c".to_string()));
    assert_eq!(key_file_name(KeyRole::Machine), "machine.private-key");
    assert_eq!(choose_config_file(true, true, "c"), Ok("cluster.toml".to_string()));
    assert_eq!(choose_config_file(false, true, "c"), Ok("machine.toml".to_string()));
    assert_eq!(choose_config_file(false, false, "c"), Err("No config found for cluster: c".to_string()));
}

#[test]
fn target_machine_lookup() {
    let text = "[machine.web01]\nid52 = \"abc\"\n[machine.odd]\nid52 = 5\n[machine.bare]\nx = 1\n";
    assert_eq!(find_target_id52(text, "web01", "prod"), Ok("abc".to_string()));
    assert_eq!(find_target_id52(text, "odd", "prod"), Ok("".to_string()));
    assert_eq!(find_target_id52(text, "bare", "prod"), Err("No id52 for machine: bare".to_string()));
    assert_eq!(find_target_id52(text, "gone", "prod"), Err("Machine gone not found in cluster prod".to_string()));
    assert_eq!(find_target_id52("a = 1", "x", "prod"), Err("No machine section in config".to_string()));
    assert_eq!(find_target_id52("machine = 1", "x", "prod"), Err("No machines table in config".to_string()));
    assert_eq!(find_target_id52("[machine]\nweb = 1", "web", "prod"), Err("Invalid machine config".to_string()));
    let parser_message = toml::from_str::<toml::Table>("[[").unwrap_err().to_string();
    assert!(!parser_message.is_empty());
    assert_eq!(find_target_id52("[[", "x", "prod"), Err(parser_message));
    let table = vec![(
        "machine".to_string(),
        TomlValue::Table(vec![("web".to_string(), TomlValue::Table(vec![("id52".to_string(), TomlValue::Str("w52".to_string()))]))]),
    )];
    assert_eq!(find_target_id52_in_table(&table, "web"), Ok("w52".to_string()));
    assert_eq!(find_target_id52_in_table(&table, "db"), Err(TargetError::MachineNotFound));
    assert_eq!(find_target_id52_in_table(&[], "db"), Err(TargetError::NoMachineSection));
    assert_eq!(TargetError::MachineNotFound.message("web", "prod"), "Machine web not found in cluster prod");
    assert_eq!(TargetError::NoId52.message("web", "prod"), "No id52 for machine: web");
    assert_eq!(command_route("abc", "abc"), CommandRoute::Local);
    assert_eq!(command_route("abc", "abd"), CommandRoute::Remote);
}

#[test]
fn config_text_checks() {
    let text = "[cluster_manager]\nid52 = \"x\"\n\n  [machine.a]\nid52 = \"a\"\n[machine.b]\nid52 = \"b\"\n";
    let c = validate_config_text(text).expect("valid TOML");
    assert!(c.has_cluster_manager);
    assert_eq!(c.machine_sections, Some(2));
    let c = validate_config_text("a = 1").expect("valid TOML");
    assert!(!c.has_cluster_manager);
    assert_eq!(c.machine_sections, None);
    let c = validate_config_text("s = \"[machine.\"").expect("valid TOML");
    assert_eq!(c.machine_sections, Some(0));
    let parser_message = toml::from_str::<toml::Table>("[broken").unwrap_err().to_string();
    assert_eq!(validate_config_text("[broken").err(), Some(format!("TOML syntax error: {parser_message}")));
    assert_eq!(config_text_report("x", Some("bad")).err(), Some("TOML syntax error: bad".to_string()));
    let c = config_text_report("[cluster_manager]\n[machine.a]\n#[machine.b]\n", None).expect("no syntax error");
    assert!(c.has_cluster_manager);
    assert_eq!(c.machine_sections, Some(1));
}

#[test]
fn config_outcomes() {
    assert_eq!(check_outcomes(&[]), Ok(()));
    assert_eq!(check_outcomes(&[true, true]), Ok(()));
    assert_eq!(check_outcomes(&[true, false, true]), Err("Some configurations invalid".to_string()));
    assert_eq!(check_outcomes(&[false]), Err("Some configurations invalid".to_string()));
}

#[test]
fn tally_and_roles() {
    let mut t = ConfigTally::new();
    t.record(true);
    assert_eq!(t.finish(), Ok(()));
    t.record(false);
    assert_eq!((t.total, t.valid), (2, 1));
    assert_eq!(t.finish(), Err("Some configurations invalid".to_string()));
    assert_eq!(detect_cluster_role("/d", true, false), Ok(ClusterRole::ClusterManager));
    assert_eq!(detect_cluster_role("/d", false, true), Ok(ClusterRole::Machine));
    assert_eq!(detect_cluster_role("/d", false, false), Ok(ClusterRole::Waiting));
    let e = detect_cluster_role("/d", true, true).unwrap_err();
    assert!(e.starts_with("CONFIGURATION ERROR: Both cluster.toml and machine.toml exist in /d\nThis is not supported."));
    assert!(e.ends_with("Remove one of the files to fix this error."));
    assert_eq!(identity_file_name(&ClusterRole::Waiting), "identity.key");
    assert_eq!(identity_file_name(&ClusterRole::ClusterManager), "cluster.private-key");
}

#[test]
fn identity_key_text() {
    let key = fastn_id52::SecretKey::generate();
    let text = format!("  {}\n", key);
    assert!(identity_key_text_valid(&text));
    assert!(!identity_key_text_valid(&"z".repeat(64)));
    assert!(!identity_key_text_valid(&format!(" {} ", "1".repeat(52))));
    assert!(identity_key_text_valid(&"0".repeat(64)));
    assert!(!identity_key_text_valid(&"A".repeat(64)));
    assert!(identity_key_text_valid(&"a".repeat(52)));
    assert!(identity_key_text_valid(&format!("{}Q", "7".repeat(51))));
    assert!(identity_key_text_valid(&format!("{}q", "B".repeat(51))));
    assert!(!identity_key_text_valid(&format!("{}B", "a".repeat(51))));
    assert!(!identity_key_text_valid(&format!("{}7", "a".repeat(51))));
    assert!(!identity_key_text_valid(&format!("{}8A", "a".repeat(50))));
    assert_eq!(trim_text("\u{a0} x y \n"), "x y");
}

#[test]
fn daemon_messages() {
    assert!(matches!(rescan_request(Some("c".to_string())), DaemonMessage::RescanCluster(c) if c == "c"));
    assert!(matches!(rescan_request(None), DaemonMessage::RescanAll));
    assert!(matches!(daemon_action(&DaemonMessage::RescanAll), RescanAction::All));
    assert!(matches!(daemon_action(&DaemonMessage::Success), RescanAction::Reject));
    assert!(matches!(rescan_reply(None), DaemonMessage::Error(m) if m == "Invalid message type"));
    assert!(matches!(rescan_reply(Some(Ok(()))), DaemonMessage::Success));
    assert_eq!(daemon_response_outcome(&DaemonMessage::Success), Ok(()));
    assert_eq!(
        daemon_response_outcome(&DaemonMessage::Error("boom".to_string())),
        Err("Daemon rescan failed: boom".to_string())
    );
    assert_eq!(daemon_response_outcome(&DaemonMessage::RescanAll), Err("Invalid response from daemon".to_string()));
    assert!(daemon_not_running(&missing_socket_message()));
    assert!(!daemon_not_running("connection refused"));
}

#[test]
fn machine_init_texts() {
    assert_eq!(check_cluster_manager("abc"), Ok(()));
    assert_eq!(
        check_cluster_manager("cm.example.com"),
        Err("Domain names not supported for security reasons. Use cluster manager ID52 directly.".to_string())
    );
    assert_eq!(
        cluster_info_text("prod", "cmid", "mid"),
        "# Cluster registration information\ncluster_alias = \"prod\"\ncluster_manager_id52 = \"cmid\"\nmachine_id52 = \"mid\"\ndomain = \"\"\n"
    );
    assert!(matches!(notify_outcome(Ok(())), NotifyOutcome::Notified));
    assert!(matches!(notify_outcome(Err("Daemon not running (no Unix socket found)".to_string())), NotifyOutcome::DaemonNotRunning));
    assert!(matches!(notify_outcome(Err("x".to_string())),
        NotifyOutcome::Failed(m) if m == "Failed to notify daemon of new machine: x"));
}

#[test]
fn remote_commands() {
    assert_eq!(parse_remote_address("web.prod.extra"), Ok(("web".to_string(), "prod".to_string())));
    assert_eq!(parse_remote_address("web.prod"), Ok(("web".to_string(), "prod".to_string())));
    assert_eq!(parse_remote_address("web"), Err("Invalid machine address format: web".to_string()));
    assert_eq!(
        remote_call_outcome(RemoteCallResult::Reply { exit_code: 0, execution_time_ms: 12 }),
        Ok("✅ Remote command executed successfully (12ms)".to_string())
    );
    assert_eq!(
        remote_call_outcome(RemoteCallResult::Reply { exit_code: -2, execution_time_ms: 12 }),
        Ok("❌ Remote command failed with exit code: -2".to_string())
    );
    assert_eq!(remote_call_outcome(RemoteCallResult::TimedOut), Err("Remote command timed out after 30 seconds".to_string()));
    assert_eq!(remote_call_outcome(RemoteCallResult::CallFailed("x".to_string())), Err("P2P communication failed: x".to_string()));
    assert_eq!(local_exit_summary(false, None), "❌ Command failed with exit code: -1");
    assert_eq!(local_exit_summary(true, Some(0)), "✅ Self-command completed");
}

#[test]
fn bridge_decisions() {
    let id = "a".repeat(52);
    let host = format!("{}.bridge.example", id);
    assert_eq!(bridge_peer_id(Some(&host), None), Ok(id.clone()));
    assert_eq!(bridge_peer_id(Some(&host), Some(id.as_str())), Ok(id.clone()));
    let other = "b".repeat(52);
    assert_eq!(bridge_peer_id(Some(&host), Some(other.as_str())), Err("got http request with invalid peer id".to_string()));
    assert_eq!(bridge_peer_id(Some("short.example"), None), Err("got http request with invalid peer id".to_string()));
    assert_eq!(bridge_peer_id(Some("nodot"), None), Err("got http request without Host header".to_string()));
    assert_eq!(bridge_peer_id(None, None), Err("got http request without Host header".to_string()));
    let wide = format!("{}é.x", "a".repeat(50));
    assert_eq!(bridge_peer_id(Some(&wide), None), Ok(format!("{}é", "a".repeat(50))));
    assert!(matches!(upgrade_target(Some("example.com:443")), Ok(ProxyData::Connect { addr }) if addr == "example.com:443"));
    assert!(matches!(upgrade_target(None), Err(m) if m == "no host header found"));
    assert_eq!(listening_line(8080), "Listening on http://127.0.0.1:8080");
}

#[test]
fn announcements() {
    let l = InfoMode::Startup.http_lines("127.0.0.1", 3000, "ID", "bridge.example");
    assert_eq!(render(&l), vec![
        "Malai: Sharing http://127.0.0.1:3000 at".to_string(),
        "https://ID.bridge.example".to_string(),
        "To access via web browser, run your own bridge with: malai http-bridge".to_string(),
        "\nOr use: malai browse kulfi://ID".to_string(),
    ]);
    assert_eq!(l[0][0].tone, Tone::Badge);
    assert_eq!(l[0][2].tone, Tone::Highlight);
    let l = InfoMode::OnExit.http_lines("h", 1, "ID", "");
    assert_eq!(render(&l), vec![
        "".to_string(),
        "Malai: Sharing http://h:1 at".to_string(),
        "kulfi://ID".to_string(),
        "\nOr use: malai browse kulfi://ID".to_string(),
        "Press ctrl+c again to exit.".to_string(),
    ]);
    let l = InfoMode::Startup.tcp_lines(22, "ID");
    assert_eq!(render(&l), vec![
        "Malai: Sharing port 22".to_string(),
        "Run malai tcp-bridge ID <some-port>".to_string(),
        "to connect to it from any machine.".to_string(),
    ]);
    let l = InfoMode::OnExit.tcp_udp_lines(22, "ID");
    assert_eq!(render(&l), vec![
        "".to_string(),
        "Run malai tcp-bridge ID <some-port> or malai udp-bridge ID <some-port>".to_string(),
        "to connect to it from any machine.".to_string(),
        "Press ctrl+c again to exit.".to_string(),
    ]);
    let l = InfoMode::Startup.proxy_lines("ID");
    assert_eq!(render(&l), vec![
        "Malai: Running Public HTTP Proxy at ID.".to_string(),
        "Run malai http-proxy ID on any machine to access this proxy server.".to_string(),
    ]);
    let (ok, lines) = public_check(true, "folder", "malai folder --public x");
    assert!(ok && lines.is_empty());
    let (ok, lines) = public_check(false, "folder", "malai folder --public x");
    assert!(!ok);
    assert_eq!(render(&lines)[1], "Instead, run: malai folder --public x");
    assert!(render(&lines)[0].starts_with("You need to pass --public to expose the folder. This is a security feature"));
}

#[test]
fn server_replies() {
    assert_eq!(MalaiProtocol::ConfigUpdate.to_string(), "ConfigUpdate");
    assert_eq!(MalaiProtocol::ExecuteCommand.to_string(), "ExecuteCommand");
    let r = config_update_reply(Ok(())).ok().unwrap();
    assert!(r.success);
    assert_eq!(r.message, "Config received and saved successfully");
    assert_eq!(config_update_reply(Err("disk full".to_string())).err().unwrap().message, "Failed to save config: disk full");
    assert!(command_gate(true).is_ok());
    let e = command_gate(false).err().unwrap();
    assert_eq!((e.error_type.as_str(), e.message.as_str()), ("no_config", "Machine has no configuration"));
    let r = command_execution_reply(Ok(CommandOutput { status_code: None, stdout: b"o".to_vec(), stderr: vec![] })).ok().unwrap();
    assert_eq!((r.exit_code, r.stdout), (-1, b"o".to_vec()));
    let e = command_execution_reply(Err("no such file".to_string())).err().unwrap();
    assert_eq!((e.error_type.as_str(), e.message.as_str()), ("execution_failed", "no such file"));
    assert_eq!(
        send_config_outcome(Ok(Ok(ConfigResponse { success: true, message: "fine".to_string() }))),
        Ok("fine".to_string())
    );
    assert_eq!(send_config_outcome(Err("down".to_string())), Err("P2P failed: down".to_string()));
    let e = send_command_outcome(Ok(Err(malai::malai_server::CommandError {
        error_type: "no_config".to_string(),
        message: "Machine has no configuration".to_string(),
    })));
    assert_eq!(e.err().unwrap(), "Command error: no_config: Machine has no configuration");
    let req = EchoRequest { message: "hi".to_string() };
    assert_eq!(handle_echo(malai::simple_server::MalaiProtocol::Echo, &req).response, "Echo: hi");
    assert_eq!(handle_echo(malai::simple_server::MalaiProtocol::Config, &req).response, "Config received");
    assert_eq!(handle_echo(malai::simple_server::MalaiProtocol::Execute, &req).response, "Executed: hi");
}

#[test]
fn command_line_choices() {
    let args: Vec<String> = vec![];
    assert!(matches!(external_action(&args), ExternalAction::Usage));
    let args = vec!["web".to_string()];
    assert!(matches!(external_action(&args), ExternalAction::Shell { machine } if machine == "web"));
    let args = vec!["web".to_string(), "ls".to_string(), "-l".to_string(), "/".to_string()];
    match external_action(&args) {
        ExternalAction::Run { machine, command, args } => {
            assert_eq!((machine.as_str(), command.as_str()), ("web", "ls"));
            assert_eq!(args, vec!["-l".to_string(), "/".to_string()]);
        },
        _ => panic!("expected a command"),
    }
    assert_eq!(malai_home(Some("/m".to_string()), Some("/d".to_string())), "/m");
    assert_eq!(malai_home(None, Some("/d".to_string())), "/d/malai");
    assert_eq!(malai_home(None, None), "malai");
    let (a, b) = daemon_environment_lines("/m");
    assert_eq!((a.as_str(), b.as_str()), ("MALAI_HOME=/m", "MALAI_DAEMON_SOCK=/m/malai.sock"));
}

#[test]
fn counter_operations() {
    let mut c = GlobalCounter::new();
    assert_eq!(c.get(), 0);
    c.incr();
    c.incr();
    assert_eq!(c.get(), 2);
    c.decr();
    assert_eq!(c.get(), 3);
    c.reset();
    assert_eq!(c.get(), 0);
}

#[test]
fn urls_and_numbers() {
    assert_eq!(u64_to_decimal(0), "0");
    assert_eq!(u64_to_decimal(18446744073709551615), "18446744073709551615");
    assert_eq!(u64_to_hex(0), "0");
    assert_eq!(u64_to_hex(255), "ff");
    assert_eq!(u64_to_hex(0x1a2b), format!("{:x}", 0x1a2bu64));
    assert_eq!(u64_to_hex(u64::MAX), "ffffffffffffffff");
    assert_eq!(parse_url("kulfi://abc/path/x"), Ok(("abc".to_string(), "path/x".to_string())));
    assert_eq!(parse_url("kulfi://abc"), Ok(("abc".to_string(), "".to_string())));
    assert_eq!(parse_url("http://x"), Err("URL must start with kulfi://".to_string()));
    assert_eq!(parse_url("xkulfi://a"), Err("URL must start with kulfi://, got x in the beginning".to_string()));
}

#[test]
fn skynet_stream_actions() {
    assert_eq!(
        stream_action(PeerMessage::Identity, "127.0.0.1", 8080),
        StreamAction::Proxy { addr: "127.0.0.1:8080".to_string() }
    );
    assert_eq!(
        stream_action(PeerMessage::Identity, "localhost", 0),
        StreamAction::Proxy { addr: "localhost:0".to_string() }
    );
    assert_eq!(
        stream_action(PeerMessage::Other, "127.0.0.1", 8080),
        StreamAction::Refuse { reply: "error: unsupported protocol\n".to_string() }
    );
}
