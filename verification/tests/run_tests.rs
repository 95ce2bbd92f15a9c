use malai::run::{
    check_used, default_bridge, default_host, deserialize_ports, identity_source, parse_config,
    process_services, validate_identity_conf, Config, IdentityConf, IdentitySource, ServiceConfig,
    ServiceStep, StringOrVec,
};
use malai::toml_doc::{ConfigParseError, ParseFailure, TomlValue};

fn service<'a, C>(services: &'a [(String, C)], name: &str) -> Option<&'a C> {
    services.iter().find(|(n, _)| n == name).map(|(_, c)| c)
}

fn example_config() -> Config {
    let text = r#"
[http.service1]
identity = "<http-id52>"
port = 3000
public = true
active = true

[http.service2]
secret_file = "service2.secret"
port = 3001
public = true
active = false
bridge = "bridge.example.com"

[tcp.service3]
identity = "<tcp-id52>"
port = 3002
public = true
active = true

[tcp.service5]
identity = ["<multi-port-id52-a>", "<multi-port-id52-b>", "<multi-port-id52-c>"]
ports = [4000, 4001, 4002]
public = true
active = true

[udp.service4]
identity = "<udp-id52>"
port = 3003
public = true
active = true
"#;
    match parse_config(text, "") {
        Ok(c) => c,
        Err(e) => panic!("config should parse: {:?}", e),
    }
}

#[test]
fn parse_config_test() {
    let conf = example_config();
    assert!(conf.http.is_some());
    let http = conf.http.as_ref().expect("HTTP services should be present");
    assert!(service(&http.services, "service1").is_some());
    assert!(service(&http.services, "service2").is_some());
    assert!(service(&http.services, "service2").unwrap().identity_conf.secret_file.is_some());

    assert!(conf.tcp.is_some());
    let tcp = conf.tcp.as_ref().expect("TCP services should be present");
    assert!(service(&tcp.services, "service3").is_some());
    assert_eq!(service(&tcp.services, "service3").unwrap().port, vec![3002]);

    // Multi-port service with per-port identities
    let service5 = service(&tcp.services, "service5").expect("service5 should be present");
    assert_eq!(service5.port, vec![4000, 4001, 4002]);
    let identity = service5.identity_conf.identity.as_ref().expect("service5 should have identity");
    assert_eq!(identity.len(), 3);
    assert_eq!(identity.get(0), Some("<multi-port-id52-a>"));
    assert_eq!(identity.get(1), Some("<multi-port-id52-b>"));
    assert_eq!(identity.get(2), Some("<multi-port-id52-c>"));

    assert!(conf.udp.is_some());
    let udp = conf.udp.as_ref().expect("UDP services should be present");
    assert!(service(&udp.services, "service4").is_some());
}

#[test]
fn validate_identity_conf_mismatched_count() {
    let conf = IdentityConf {
        identity: Some(StringOrVec::Multiple(vec![
            "id1".to_string(),
            "id2".to_string(),
            "id3".to_string(),
            "id4".to_string(),
        ])),
        secret_file: None,
    };

    let result = validate_identity_conf(&conf, 5, "test_service");
    assert!(result.is_err());
    let err_msg = result.unwrap_err();
    assert!(err_msg.contains("5 ports"), "Error should mention 5 ports: {}", err_msg);
    assert!(err_msg.contains("4 identity entries"), "Error should mention 4 identity entries: {}", err_msg);
}

#[test]
fn validate_identity_conf_messages() {
    let single = IdentityConf { identity: None, secret_file: Some(StringOrVec::Single("k".to_string())) };
    assert_eq!(
        validate_identity_conf(&single, 2, "svc"),
        Err("Service 'svc' has 2 ports but only a single secret_file. Provide an array of 2 secret_file entries, one per port.".to_string())
    );
    assert_eq!(validate_identity_conf(&single, 1, "svc"), Ok(()));
    let mismatch = IdentityConf {
        identity: None,
        secret_file: Some(StringOrVec::Multiple(vec!["a".to_string()])),
    };
    assert_eq!(
        validate_identity_conf(&mismatch, 3, "svc"),
        Err("Service 'svc' has 3 ports but 1 secret_file entries. The counts must match.".to_string())
    );
    let single_identity = IdentityConf { identity: Some(StringOrVec::Single("x".to_string())), secret_file: None };
    assert_eq!(
        validate_identity_conf(&single_identity, 2, "web"),
        Err("Service 'web' has 2 ports but only a single identity. Provide an array of 2 identity entries, one per port.".to_string())
    );
    let none = IdentityConf { identity: None, secret_file: None };
    assert_eq!(validate_identity_conf(&none, 4, "svc"), Ok(()));
}

#[test]
fn identity_used_only_once() {
    let mut used: Vec<String> = Vec::new();
    assert_eq!(check_used(&mut used, "abc"), Ok(()));
    assert_eq!(check_used(&mut used, "def"), Ok(()));
    assert_eq!(check_used(&mut used, "abc"), Err("Identity already used.".to_string()));
    assert_eq!(used, vec!["abc".to_string(), "def".to_string()]);
}

#[test]
fn identities_over_a_run() {
    let mut used: Vec<String> = vec!["pre".to_string()];
    let tried = ["a", "pre", "b", "a", "c", "b"];
    let admitted: Vec<&str> = tried.iter().copied().filter(|id| check_used(&mut used, id).is_ok()).collect();
    assert_eq!(admitted, vec!["a", "b", "c"]);
    assert_eq!(used, vec!["pre".to_string(), "a".to_string(), "b".to_string(), "c".to_string()]);
}

#[test]
fn identity_sources() {
    let files = IdentityConf {
        identity: Some(StringOrVec::Single("ignored".to_string())),
        secret_file: Some(StringOrVec::Multiple(vec!["a.key".to_string(), "b.key".to_string()])),
    };
    assert!(matches!(identity_source(&files, 1), Ok(IdentitySource::SecretFile(f)) if f == "b.key"));
    assert!(matches!(identity_source(&files, 2), Err(m) if m == "secret_file index out of bounds"));
    let ids = IdentityConf { identity: Some(StringOrVec::Single("id".to_string())), secret_file: None };
    assert!(matches!(identity_source(&ids, 0), Ok(IdentitySource::Keyring(i)) if i == "id"));
    assert!(matches!(identity_source(&ids, 1), Err(m) if m == "identity index out of bounds"));
    let none = IdentityConf { identity: None, secret_file: None };
    assert!(matches!(identity_source(&none, 0), Ok(IdentitySource::Default)));
    assert!(matches!(identity_source(&none, 7), Ok(IdentitySource::Default)));
}

fn table(entries: Vec<(&str, TomlValue)>) -> Vec<(String, TomlValue)> {
    entries.into_iter().map(|(k, v)| (k.to_string(), v)).collect()
}

#[test]
fn ports_forms_and_errors() {
    assert_eq!(deserialize_ports(&table(vec![("port", TomlValue::Int(80))])), Ok(vec![80]));
    assert_eq!(
        deserialize_ports(&table(vec![("ports", TomlValue::Array(vec![TomlValue::Int(1), TomlValue::Int(2)]))])),
        Ok(vec![1, 2])
    );
    assert_eq!(deserialize_ports(&table(vec![("port", TomlValue::Array(vec![]))])), Err(ConfigParseError::EmptyPortList));
    assert_eq!(deserialize_ports(&table(vec![("port", TomlValue::Int(70000))])), Err(ConfigParseError::PortOutOfRange(70000)));
    assert_eq!(
        deserialize_ports(&table(vec![("port", TomlValue::Array(vec![TomlValue::Int(1), TomlValue::Int(-1)]))])),
        Err(ConfigParseError::InvalidPort(-1))
    );
    assert_eq!(
        deserialize_ports(&table(vec![("port", TomlValue::Array(vec![TomlValue::Bool(true), TomlValue::Int(-1)]))])),
        Err(ConfigParseError::WrongType)
    );
    assert_eq!(deserialize_ports(&table(vec![("port", TomlValue::Str("80".to_string()))])), Err(ConfigParseError::WrongType));
    assert_eq!(
        deserialize_ports(&table(vec![("port", TomlValue::Int(1)), ("ports", TomlValue::Int(2))])),
        Err(ConfigParseError::DuplicateField)
    );
    assert_eq!(deserialize_ports(&table(vec![("x", TomlValue::Int(1))])), Err(ConfigParseError::MissingField));
    assert!(matches!(
        parse_config("[tcp.a]\nports = [1, 2]\npublic = true\nactive = true\n", ""),
        Ok(c) if c.tcp.as_ref().unwrap().services[0].1.port == vec![1, 2]
    ));
    assert!(matches!(parse_config("[tcp.a]\nport = []\npublic = true\nactive = true\n", ""), Err(ParseFailure::Content(ConfigParseError::EmptyPortList))));
}

fn failure(r: Result<malai::run::Config, ParseFailure>) -> ParseFailure {
    match r {
        Ok(_) => panic!("the configuration should be refused"),
        Err(e) => e,
    }
}

#[test]
fn port_error_messages() {
    assert_eq!(ConfigParseError::PortOutOfRange(70000).message(), "port 70000 is out of range");
    assert_eq!(ConfigParseError::PortOutOfRange(-5).message(), "port -5 is out of range");
    assert_eq!(ConfigParseError::EmptyPortList.message(), "port list cannot be empty");
    assert_eq!(ConfigParseError::InvalidPort(-1).message(), "invalid value: integer `-1`, expected u16");
    assert_eq!(ConfigParseError::InvalidPort(65536).message(), "invalid value: integer `65536`, expected u16");
    assert_eq!(ConfigParseError::DuplicateField.message(), "duplicate field `port`");
    let e = failure(parse_config("[tcp.a]\nport = 70000\npublic = true\nactive = true\n", ""));
    assert_eq!(e, ParseFailure::Content(ConfigParseError::PortOutOfRange(70000)));
    assert_eq!(e.message(), "port 70000 is out of range");
    let e = failure(parse_config("[tcp.a]\nports = []\npublic = true\nactive = true\n", ""));
    assert_eq!(e.message(), "port list cannot be empty");
}

#[test]
fn config_defaults_and_errors() {
    let conf = parse_config("[tcp.a]\nport = 1\npublic = true\nactive = true\n", "bridge.example").unwrap();
    let a = service(&conf.tcp.as_ref().unwrap().services, "a").unwrap();
    assert_eq!(a.host(), "127.0.0.1");
    assert!(conf.http.is_none());
    assert!(conf.malai.log.is_none());
    let conf = parse_config("[malai]\nlog = \"/var/log/malai.log\"\n[http.w]\nport = 8\npublic = true\nactive = true\n", "bridge.example").unwrap();
    assert_eq!(conf.malai.log.as_deref(), Some("/var/log/malai.log"));
    assert_eq!(service(&conf.http.as_ref().unwrap().services, "w").unwrap().bridge, "bridge.example");
    assert!(matches!(parse_config("[tcp.a]\nport = 1\nactive = true\n", ""), Err(ParseFailure::Content(ConfigParseError::MissingField))));
    assert!(matches!(parse_config("[tcp.a]\nport = 1\npublic = 1\nactive = true\n", ""), Err(ParseFailure::Content(ConfigParseError::WrongType))));
    let expected = toml::from_str::<toml::Table>("not toml [").unwrap_err().to_string();
    assert!(!expected.is_empty());
    assert_eq!(failure(parse_config("not toml [", "")), ParseFailure::Syntax(expected.clone()));
    assert_eq!(failure(parse_config("not toml [", "")).message(), expected);
    assert_eq!(default_host(), "127.0.0.1");
    assert_eq!(default_bridge(Some("b.example".to_string())), "b.example");
    assert_eq!(default_bridge(None), "");
}

#[test]
fn planning_services() {
    let conf = example_config();
    let tcp = conf.tcp.as_ref().unwrap();
    let steps = process_services(&tcp.services);
    let binds: Vec<(String, usize, u16)> = steps
        .iter()
        .filter_map(|s| match s {
            ServiceStep::Bind { name, port_index, port, .. } => Some((name.clone(), *port_index, *port)),
            _ => None,
        })
        .collect();
    assert!(binds.contains(&("service5".to_string(), 2, 4002)));
    assert!(binds.contains(&("service3".to_string(), 0, 3002)));
    assert_eq!(binds.len(), 4);
    let http = conf.http.as_ref().unwrap();
    let steps = process_services(&http.services);
    assert!(steps.iter().any(|s| matches!(s, ServiceStep::Inactive { name } if name == "service2")));

    let bad = parse_config("[tcp.m]\nports = [1, 2]\nidentity = \"one\"\npublic = true\nactive = true\n[tcp.p]\nport = 3\npublic = false\nactive = true\n", "").unwrap();
    let steps = process_services(&bad.tcp.as_ref().unwrap().services);
    assert!(steps.iter().any(|s| matches!(s, ServiceStep::Invalid { name, .. } if name == "m")));
    assert!(steps.iter().any(|s| matches!(s, ServiceStep::NotPublic { name } if name == "p")));
    assert_eq!(steps.len(), 2);
}
