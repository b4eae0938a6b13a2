use s2a::fields::Field;
use s2a::ssh_config::SshConfig;

const SAMPLE_SSH_CONFIG: &str = r#"Host default
  HostName 127.0.0.1
  User vagrant
  Port 50022
  UserKnownHostsFile /dev/null
  StrictHostKeyChecking no
  PasswordAuthentication no
  IdentityFile /path/to/private_key
  IdentitiesOnly yes
  LogLevel FATAL
  PubkeyAcceptedKeyTypes +ssh-rsa
  HostKeyAlgorithms +ssh-rsa"#;

#[test]
fn parse_ssh_config() {
    // Given:
    let input = SAMPLE_SSH_CONFIG;

    // When:
    let ssh_configs = SshConfig::parse(input);

    // Then:
    assert_eq!(1, ssh_configs.len());
    assert_eq!(
        ssh_configs[0],
        SshConfig {
            host: "default".to_string(),
            // in the fields' canonical order
            fields: vec![
                (Field::HostKeyAlgorithms, "+ssh-rsa".to_string()),
                (Field::HostName, "127.0.0.1".to_string()),
                (Field::IdentitiesOnly, "yes".to_string()),
                (Field::IdentityFile, "/path/to/private_key".to_string()),
                (Field::LogLevel, "FATAL".to_string()),
                (Field::PasswordAuthentication, "no".to_string()),
                (Field::Port, "50022".to_string()),
                (Field::PubkeyAcceptedKeyTypes, "+ssh-rsa".to_string()),
                (Field::StrictHostKeyChecking, "no".to_string()),
                (Field::User, "vagrant".to_string()),
                (Field::UserKnownHostsFile, "/dev/null".to_string()),
            ],
        }
    );
}

#[test]
fn parse_empty_string() {
    // Given:
    let input = "";

    // When:
    let ssh_configs = SshConfig::parse(input);

    // Then:
    assert_eq!(0, ssh_configs.len());
}

#[test]
fn parse_ssh_config_with_empty_lines() {
    // Given:
    let input = r#"Host default

  HostName 127.0.0.1

"#;

    // When:
    let ssh_configs = SshConfig::parse(input);

    // Then:
    assert_eq!(1, ssh_configs.len());
    assert_eq!(
        ssh_configs[0],
        SshConfig {
            host: "default".to_string(),
            fields: vec![(Field::HostName, "127.0.0.1".to_string())],
        }
    );
}

#[test]
fn parse_ssh_config_with_comments() {
    // Given:
    let input = r#"Host default
  # The following line is the hostname:
  HostName 127.0.0.1
  # This is the end of the SSH configuration."#;

    // When:
    let ssh_configs = SshConfig::parse(input);

    // Then:
    assert_eq!(1, ssh_configs.len());
    assert_eq!(
        ssh_configs[0],
        SshConfig {
            host: "default".to_string(),
            fields: vec![(Field::HostName, "127.0.0.1".to_string())],
        }
    );
}

#[test]
fn parse_ssh_config_with_lowercased_keys() {
    // Given:
    let input = "host default\nhostname 127.0.0.1";

    // When:
    let ssh_configs = SshConfig::parse(input);

    // Then:
    assert_eq!(1, ssh_configs.len());
    assert_eq!(
        ssh_configs[0],
        SshConfig {
            host: "default".to_string(),
            fields: vec![(Field::HostName, "127.0.0.1".to_string())],
        }
    );
}

#[test]
fn parse_ssh_config_with_duplicate_field_keeps_last_value() {
    // Given:
    let input = r#"Host default
  HostName 127.0.0.1
  HostName 127.0.0.2"#;

    // When:
    let ssh_configs = SshConfig::parse(input);

    // Then:
    assert_eq!(1, ssh_configs.len());
    assert_eq!(
        ssh_configs[0],
        SshConfig {
            host: "default".to_string(),
            fields: vec![(Field::HostName, "127.0.0.2".to_string())],
        }
    );
}

#[test]
fn parse_ssh_config_with_unknown_field() {
    // Given:
    let input = r#"Host default
  Unknown foobar
  HostName 127.0.0.1"#;

    // When:
    let ssh_configs = SshConfig::parse(input);

    // Then:
    assert_eq!(1, ssh_configs.len());
    assert_eq!(
        ssh_configs[0],
        SshConfig {
            host: "default".to_string(),
            fields: vec![(Field::HostName, "127.0.0.1".to_string())],
        }
    );
}

#[test]
fn parse_ssh_config_with_non_well_formed_line() {
    // Given:
    let input = r#"Host default
  invalid-line
  HostName 127.0.0.1"#;

    // When:
    let ssh_configs = SshConfig::parse(input);

    // Then:
    assert_eq!(1, ssh_configs.len());
    assert_eq!(
        ssh_configs[0],
        SshConfig {
            host: "default".to_string(),
            fields: vec![(Field::HostName, "127.0.0.1".to_string())],
        }
    );
}

#[test]
fn parse_two_ssh_configs() {
    // Given:
    let input = r#"Host host1
  HostName 192.168.0.1
Host host2
  HostName 192.168.0.2
"#;

    // When:
    let ssh_configs = SshConfig::parse(input);

    // Then:
    assert_eq!(2, ssh_configs.len());
    assert_eq!(
        ssh_configs[0],
        SshConfig {
            host: "host1".to_string(),
            fields: vec![(Field::HostName, "192.168.0.1".to_string())],
        }
    );
    assert_eq!(
        ssh_configs[1],
        SshConfig {
            host: "host2".to_string(),
            fields: vec![(Field::HostName, "192.168.0.2".to_string())],
        }
    );
}

#[test]
fn new_section_is_wildcard_and_empty() {
    let section = SshConfig::new();
    assert_eq!(section.host, "*".to_string());
    assert!(section.is_empty());
    assert_eq!(section.fields.len(), 0);
}

#[test]
fn parse_fields_before_any_host_are_discarded() {
    // Fields outside any host section contribute nothing.
    let input = "HostName 10.0.0.1\nPort 22\n";
    let ssh_configs = SshConfig::parse(input);
    assert_eq!(0, ssh_configs.len());
}

#[test]
fn parse_bare_host_declaration_contributes_nothing() {
    let input = "Host lonely\n";
    let ssh_configs = SshConfig::parse(input);
    assert_eq!(0, ssh_configs.len());
}

#[test]
fn parse_keeps_fields_in_canonical_order() {
    // Declaration order in the input differs from the canonical order.
    let input = "Host h\n  User u\n  Port 1\n  HostName n\n";
    let ssh_configs = SshConfig::parse(input);
    assert_eq!(1, ssh_configs.len());
    assert_eq!(
        ssh_configs[0].fields,
        vec![
            (Field::HostName, "n".to_string()),
            (Field::Port, "1".to_string()),
            (Field::User, "u".to_string()),
        ]
    );
}

#[test]
fn parse_splits_key_and_value_at_whitespace_run() {
    let input = "Host h\n  HostName \t  10.1.2.3  \n";
    let ssh_configs = SshConfig::parse(input);
    assert_eq!(1, ssh_configs.len());
    assert_eq!(
        ssh_configs[0].fields,
        vec![(Field::HostName, "10.1.2.3".to_string())]
    );
}

#[test]
fn parse_handles_carriage_returns() {
    let input = "Host default\r\n  HostName 127.0.0.1\r\n";
    let ssh_configs = SshConfig::parse(input);
    assert_eq!(1, ssh_configs.len());
    assert_eq!(
        ssh_configs[0],
        SshConfig {
            host: "default".to_string(),
            fields: vec![(Field::HostName, "127.0.0.1".to_string())],
        }
    );
}

#[test]
fn lookup_is_case_insensitive() {
    assert_eq!(s2a::fields::lookup("HOSTNAME"), Some(Field::HostName));
    assert_eq!(s2a::fields::lookup("hostname"), Some(Field::HostName));
    assert_eq!(s2a::fields::lookup("HostName"), Some(Field::HostName));
    assert_eq!(s2a::fields::lookup("proxycommand"), Some(Field::ProxyCommand));
    assert_eq!(s2a::fields::lookup("nosuchfield"), None);
    assert_eq!(s2a::fields::field_name(Field::HostName), "HostName");
}
