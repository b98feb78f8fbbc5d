use dtui::config::{create_host_id, Config, HostConfig};

#[test]
fn test_default_config() {
    let config = Config::default();
    assert!(config.hosts.is_empty());
}

#[test]
fn test_merge_with_cli_hosts_uses_cli_when_provided() {
    let config = Config {
        hosts: vec![HostConfig {
            host: "ssh://user@server1".to_string(),
            dozzle: None,
        }],
    };

    let merged = config.merge_with_cli_hosts(vec!["ssh://user@server2".to_string()], false);
    assert_eq!(merged.host_strings(), vec!["ssh://user@server2".to_string()]);
}

#[test]
fn test_merge_with_cli_hosts_uses_config_when_cli_is_default() {
    let config = Config {
        hosts: vec![HostConfig {
            host: "ssh://user@server1".to_string(),
            dozzle: Some("https://dozzle.example.com".to_string()),
        }],
    };

    let merged = config.merge_with_cli_hosts(vec!["local".to_string()], true);
    assert_eq!(merged.host_strings(), vec!["ssh://user@server1".to_string()]);
    // Config file's dozzle URL is preserved
    assert_eq!(
        merged.hosts[0].dozzle.as_deref(),
        Some("https://dozzle.example.com")
    );
}

#[test]
fn test_merge_with_cli_hosts_defaults_to_local() {
    let config = Config { hosts: vec![] };

    let merged = config.merge_with_cli_hosts(vec!["local".to_string()], true);
    assert_eq!(merged.host_strings(), vec!["local".to_string()]);
}

#[test]
fn test_host_config_without_dozzle() {
    let host = HostConfig {
        host: "local".to_string(),
        dozzle: None,
    };
    assert_eq!(host.host, "local");
    assert_eq!(host.dozzle, None);
}

#[test]
fn test_host_config_with_dozzle() {
    let host = HostConfig {
        host: "ssh://user@host".to_string(),
        dozzle: Some("https://dozzle.example.com".to_string()),
    };
    assert_eq!(host.host, "ssh://user@host");
    assert_eq!(host.dozzle.as_deref(), Some("https://dozzle.example.com"));
}

#[test]
fn test_create_host_id_local() {
    assert_eq!(create_host_id("local"), "local");
}

#[test]
fn test_create_host_id_ssh_with_port() {
    assert_eq!(create_host_id("ssh://user@server1:2222"), "user@server1");
}

#[test]
fn test_create_host_id_ssh_without_port() {
    assert_eq!(create_host_id("ssh://user@server1"), "user@server1");
}

#[test]
fn test_create_host_id_tcp() {
    assert_eq!(create_host_id("tcp://host:2375"), "host:2375");
}

#[test]
fn test_create_host_id_other() {
    assert_eq!(create_host_id("unix:///var/run/docker.sock"), "unix:///var/run/docker.sock");
}
