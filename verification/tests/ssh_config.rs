use ssm::ssh_config::{merge_new, parse_ssh_config_str};
use ssm::storage::Session;

#[test]
fn parses_basic_block() {
    let cfg = "\
Host web
    HostName 10.0.0.1
    User deploy
    Port 2222
";
    let s = parse_ssh_config_str(cfg);
    assert_eq!(s.len(), 1);
    assert_eq!(s[0].name, "web");
    assert_eq!(s[0].host, "10.0.0.1");
    assert_eq!(s[0].user, "deploy");
    assert_eq!(s[0].port, 2222);
}

#[test]
fn skips_wildcard_blocks() {
    let cfg = "\
Host *
    User root
Host db
    HostName 10.0.0.2
";
    let s = parse_ssh_config_str(cfg);
    assert_eq!(s.len(), 1);
    assert_eq!(s[0].name, "db");
}

#[test]
fn host_without_hostname_uses_alias() {
    let s = parse_ssh_config_str("Host example.com\n");
    assert_eq!(s.len(), 1);
    assert_eq!(s[0].host, "example.com");
    assert_eq!(s[0].port, 22);
}

#[test]
fn carries_proxy_jump() {
    let cfg = "\
Host internal
    HostName 192.168.1.5
    ProxyJump bastion
";
    let s = parse_ssh_config_str(cfg);
    assert_eq!(s[0].proxy_jump.as_deref(), Some("bastion"));
}

#[test]
fn handles_equals_and_tabs() {
    let cfg = "Host=api\n\tHostName = api.example.com\n\tPort=443\n";
    let s = parse_ssh_config_str(cfg);
    assert_eq!(s[0].name, "api");
    assert_eq!(s[0].host, "api.example.com");
    assert_eq!(s[0].port, 443);
}

#[test]
fn multi_alias_takes_first_concrete() {
    let s = parse_ssh_config_str("Host prod prod-* p1\n    HostName 10.0.0.9\n");
    assert_eq!(s.len(), 1);
    assert_eq!(s[0].name, "prod");
}

#[test]
fn merge_skips_existing_names() {
    let mut existing = vec![Session {
        name: "web".to_string(),
        ..Session::default()
    }];
    let imported = vec![
        Session {
            name: "web".to_string(),
            ..Session::default()
        },
        Session {
            name: "db".to_string(),
            ..Session::default()
        },
    ];
    let added = merge_new(&mut existing, imported);
    assert_eq!(added, 1);
    assert_eq!(existing.len(), 2);
}

// ── further cases ────────────────────────────────────────────────────────────

#[test]
fn proxy_jump_none_clears_jump() {
    let s = parse_ssh_config_str("Host a\n  ProxyJump bastion\n  proxyjump NONE\n");
    assert_eq!(s[0].proxy_jump, None);
}

#[test]
fn keys_are_case_insensitive_and_comments_skipped() {
    let s = parse_ssh_config_str("# comment\nHOST box\n  HOSTNAME 10.1.1.1\n  uSeR me\n\n");
    assert_eq!(s.len(), 1);
    assert_eq!(s[0].host, "10.1.1.1");
    assert_eq!(s[0].user, "me");
}

#[test]
fn bad_port_keeps_default() {
    let s = parse_ssh_config_str("Host a\n Port 70000\nHost b\n Port +8022\n");
    assert_eq!(s[0].port, 22);
    assert_eq!(s[1].port, 8022);
}

#[test]
fn directives_before_any_host_are_ignored() {
    let s = parse_ssh_config_str("User root\nPort 1\nHost x\n");
    assert_eq!(s.len(), 1);
    assert_eq!(s[0].user, "");
    assert_eq!(s[0].port, 22);
}

#[test]
fn negated_and_question_patterns_are_skipped() {
    let s = parse_ssh_config_str("Host !bad web?\nHost ok\n");
    assert_eq!(s.len(), 1);
    assert_eq!(s[0].name, "ok");
}

#[test]
fn crlf_lines_parse() {
    let s = parse_ssh_config_str("Host w\r\n  HostName h\r\n");
    assert_eq!(s[0].host, "h");
}

#[test]
fn merge_twice_adds_nothing() {
    let mut existing: Vec<Session> = Vec::new();
    let imported = parse_ssh_config_str("Host a\nHost b\nHost a\n");
    assert_eq!(merge_new(&mut existing, imported.clone()), 2);
    assert_eq!(merge_new(&mut existing, imported), 0);
    assert_eq!(existing.len(), 2);
}

#[test]
fn default_ssh_config_path_ends_in_ssh_config() {
    let p = ssm::ssh_config::default_ssh_config_path();
    assert!(p.ends_with("/.ssh/config"));
}
