use s2a::ansible::{HostParams, Hosts, Inventory, MappingError};
use s2a::fields::Field;
use s2a::parser::{filter_wildcard, parse_to_inventory};
use s2a::ssh_config::SshConfig;
use s2a::variables::ValueType;

const SAMPLE_SSH_CONFIG: &str = r#"Host default
  HostName 127.0.0.1
  User vagrant
  Port 50022
  UserKnownHostsFile /dev/null
  StrictHostKeyChecking no
  PasswordAuthentication no
  IdentityFile /path/to/private_key
  IdentitiesOnly yes
  LogLevel FATAL
  PubkeyAcceptedKeyTypes +ssh-rsa
  HostKeyAlgorithms +ssh-rsa"#;

#[test]
fn host_params_extracts_named_parameters() {
    let input = "Host default\n  HostName 127.0.0.1\n  User vagrant\n  Port 50022\n  IdentityFile /path/to/private_key\n  ProxyCommand ssh -W %h:%p jump\n";
    let sections = SshConfig::parse(input);
    assert_eq!(sections.len(), 1);
    let params = HostParams::new(&sections[0]).expect("a valid port");
    assert_eq!(params.ansible_host, Some("127.0.0.1".to_string()));
    assert_eq!(params.ansible_port, Some(50022u16));
    assert_eq!(params.ansible_user, Some("vagrant".to_string()));
    assert_eq!(
        params.ansible_ssh_private_key_file,
        Some("/path/to/private_key".to_string())
    );
    assert_eq!(
        params.ansible_ssh_common_args,
        Some("ssh -W %h:%p jump".to_string())
    );
    // every field was claimed: no extra arguments at all
    assert_eq!(params.ansible_ssh_extra_args, None);
}

#[test]
fn host_params_folds_unclaimed_fields_in_canonical_order() {
    // a single host with five unclaimed fields, declared out of order
    let input = "Host default\n  HostName 127.0.0.1\n  User vagrant\n  Port 50022\n  IdentityFile /path/to/private_key\n  UserKnownHostsFile /dev/null\n  StrictHostKeyChecking no\n  PasswordAuthentication no\n  IdentitiesOnly yes\n  LogLevel FATAL\n";
    let sections = SshConfig::parse(input);
    let params = HostParams::new(&sections[0]).expect("a valid port");
    assert_eq!(
        params.ansible_ssh_extra_args,
        Some(
            "-o IdentitiesOnly=yes -o LogLevel=FATAL -o PasswordAuthentication=no \
             -o StrictHostKeyChecking=no -o UserKnownHostsFile=/dev/null"
                .to_string()
        )
    );
}

#[test]
fn host_params_rejects_port_out_of_range() {
    let section = SshConfig {
        host: "default".to_string(),
        fields: vec![(Field::Port, "99999".to_string())],
    };
    let err: MappingError = HostParams::new(&section).expect_err("port out of range");
    assert_eq!(err.host, "default".to_string());
    assert_eq!(err.field, Field::Port);
    assert_eq!(err.value, "99999".to_string());
}

#[test]
fn host_params_rejects_non_numeric_port() {
    let section = SshConfig {
        host: "default".to_string(),
        fields: vec![(Field::Port, "ssh".to_string())],
    };
    let err = HostParams::new(&section).expect_err("non-numeric port");
    assert_eq!(err.host, "default".to_string());
    assert_eq!(err.field, Field::Port);
    assert_eq!(err.value, "ssh".to_string());
}

#[test]
fn hosts_orders_host_identifiers() {
    let input = "Host zeta\n  HostName 10.0.0.2\nHost alpha\n  HostName 10.0.0.1\n";
    let sections = SshConfig::parse(input);
    let hosts = Hosts::new(&sections, None).expect("valid sections");
    let names: Vec<String> = hosts.hosts.iter().map(|(n, _)| n.clone()).collect();
    assert_eq!(names, vec!["alpha".to_string(), "zeta".to_string()]);
    assert_eq!(hosts.vars, None);
}

#[test]
fn hosts_keeps_last_section_under_a_repeated_identifier() {
    let input = "Host dup\n  HostName 10.0.0.1\nHost dup\n  HostName 10.0.0.2\n";
    let sections = SshConfig::parse(input);
    let hosts = Hosts::new(&sections, None).expect("valid sections");
    assert_eq!(hosts.hosts.len(), 1);
    assert_eq!(hosts.hosts[0].0, "dup".to_string());
    assert_eq!(hosts.hosts[0].1.ansible_host, Some("10.0.0.2".to_string()));
}

#[test]
fn hosts_orders_variables_and_keeps_last_duplicate() {
    let vars = Some(vec![
        ("swap_size".to_string(), ValueType::Str("3G".to_string())),
        ("become".to_string(), ValueType::Bool(false)),
        ("become".to_string(), ValueType::Bool(true)),
    ]);
    let sections: Vec<SshConfig> = Vec::new();
    let hosts = Hosts::new(&sections, vars).expect("no sections at all");
    let built = hosts.vars.expect("variables were supplied");
    assert_eq!(
        built,
        vec![
            ("become".to_string(), ValueType::Bool(true)),
            ("swap_size".to_string(), ValueType::Str("3G".to_string())),
        ]
    );
}

#[test]
fn inventory_holds_one_named_group() {
    let sections = SshConfig::parse("Host a\n  HostName 10.0.0.1\n");
    let inventory = Inventory::new("local", &sections, None).expect("valid sections");
    assert_eq!(inventory.groups.len(), 1);
    assert_eq!(inventory.groups[0].0, "local".to_string());
    assert_eq!(inventory.groups[0].1.hosts.len(), 1);
}

#[test]
fn filter_wildcard_drops_wildcard_sections() {
    let input = "Host *\n  StrictHostKeyChecking no\nHost kept\n  HostName 10.0.0.1\n";
    let sections = SshConfig::parse(input);
    assert_eq!(sections.len(), 2);
    let filtered = filter_wildcard(sections);
    assert_eq!(filtered.len(), 1);
    assert_eq!(filtered[0].host, "kept".to_string());
}

#[test]
fn wildcard_section_is_excluded_from_the_document() {
    // even though the wildcard section carries fields, no host comes of it
    let input = "Host *\n  StrictHostKeyChecking no\n  Port 22\n";
    let inventory =
        parse_to_inventory("test", None, input).expect("wildcard sections are dropped");
    assert_eq!(inventory.groups[0].1.hosts.len(), 0);
}

#[test]
fn no_host_declarations_yield_an_empty_document() {
    let input = "HostName 10.0.0.1\nPort 22\n# only stray lines\n";
    let inventory = parse_to_inventory("test", None, input).expect("nothing to map");
    assert_eq!(inventory.groups.len(), 1);
    assert_eq!(inventory.groups[0].0, "test".to_string());
    assert_eq!(inventory.groups[0].1.hosts.len(), 0);
    assert_eq!(inventory.groups[0].1.vars, None);
}

#[test]
fn end_to_end_single_host_document() {
    let inventory =
        parse_to_inventory("test", None, SAMPLE_SSH_CONFIG).expect("a valid configuration");
    assert_eq!(inventory.groups.len(), 1);
    let (group_name, hosts) = &inventory.groups[0];
    assert_eq!(group_name, &"test".to_string());
    assert_eq!(hosts.vars, None);
    assert_eq!(hosts.hosts.len(), 1);
    let (host_name, params) = &hosts.hosts[0];
    assert_eq!(host_name, &"default".to_string());
    assert_eq!(params.ansible_host, Some("127.0.0.1".to_string()));
    assert_eq!(params.ansible_port, Some(50022u16));
    assert_eq!(params.ansible_user, Some("vagrant".to_string()));
    assert_eq!(
        params.ansible_ssh_private_key_file,
        Some("/path/to/private_key".to_string())
    );
    assert_eq!(params.ansible_ssh_common_args, None);
    assert_eq!(
        params.ansible_ssh_extra_args,
        Some(
            "-o HostKeyAlgorithms=+ssh-rsa -o IdentitiesOnly=yes -o LogLevel=FATAL \
             -o PasswordAuthentication=no -o PubkeyAcceptedKeyTypes=+ssh-rsa \
             -o StrictHostKeyChecking=no -o UserKnownHostsFile=/dev/null"
                .to_string()
        )
    );
}

#[test]
fn end_to_end_typed_shared_variables() {
    let vars = vec![
        "become:true",
        "num_workers:4",
        "pi:1.23",
        "swap_size:3G",
        "port:'22'",
    ];
    let parsed: Vec<(String, ValueType)> = vars
        .iter()
        .map(|s| s2a::variables::parse_key_value(s).expect("a name:value pair"))
        .collect();
    let inventory = parse_to_inventory("test", Some(parsed), SAMPLE_SSH_CONFIG)
        .expect("a valid configuration");
    let built = inventory.groups[0].1.vars.clone().expect("variables were supplied");
    assert_eq!(
        built,
        vec![
            ("become".to_string(), ValueType::Bool(true)),
            ("num_workers".to_string(), ValueType::Int64(4)),
            ("pi".to_string(), ValueType::Float64("1.23".to_string())),
            ("port".to_string(), ValueType::Str("22".to_string())),
            ("swap_size".to_string(), ValueType::Str("3G".to_string())),
        ]
    );
}

#[test]
fn mapping_error_names_the_first_bad_section() {
    let input = "Host ok\n  Port 22\nHost bad1\n  Port 66000\nHost bad2\n  Port x\n";
    let err = parse_to_inventory("test", None, input).expect_err("a bad port");
    assert_eq!(err.host, "bad1".to_string());
    assert_eq!(err.field, Field::Port);
    assert_eq!(err.value, "66000".to_string());
}
