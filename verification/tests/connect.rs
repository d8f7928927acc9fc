use ssm::connect::list_lines;
use ssm::connect::{askpass_env, connecting_message, imported_message, nothing_to_import_message};
use ssm::connect::{connect_direct, do_connect, parse_hostspec, ssh_target, ConnectConfig, HostSpecError};
use ssm::storage::Session;

#[test]
fn parse_user_at_host() {
    let s = parse_hostspec("alice@example.com").unwrap();
    assert_eq!(s.user, "alice");
    assert_eq!(s.host, "example.com");
    assert_eq!(s.port, 22);
}

#[test]
fn parse_user_at_host_port() {
    let s = parse_hostspec("bob@10.0.0.1:2222").unwrap();
    assert_eq!(s.user, "bob");
    assert_eq!(s.host, "10.0.0.1");
    assert_eq!(s.port, 2222);
}

#[test]
fn parse_missing_at_fails() {
    assert!(parse_hostspec("no-at-sign").is_err());
}

#[test]
fn ssh_target_with_user() {
    let s = Session {
        user: "alice".into(),
        host: "h".into(),
        ..Session::default()
    };
    assert_eq!(ssh_target(&s), "alice@h");
}

#[test]
fn ssh_target_without_user_omits_at() {
    let s = Session {
        user: String::new(),
        host: "h".into(),
        ..Session::default()
    };
    assert_eq!(ssh_target(&s), "h");
}

#[test]
fn herdr_not_found_returns_error() {
    let session = Session {
        name: "test".to_string(),
        host: "127.0.0.1".to_string(),
        user: "nobody".to_string(),
        port: 22,
        ..Session::default()
    };
    let cfg = ConnectConfig { use_herdr: true };
    let result = do_connect(&session, &cfg);
    assert_eq!(result.program, "herdr");
    assert_eq!(result.args, vec!["--remote".to_string(), "nobody@127.0.0.1".to_string()]);
    assert!(!result.password_handoff);
}

// ── further cases ────────────────────────────────────────────────────────────

#[test]
fn hostspec_errors_by_kind() {
    assert_eq!(parse_hostspec("no-at-sign").unwrap_err(), HostSpecError::MissingAt);
    assert_eq!(parse_hostspec("@host").unwrap_err(), HostSpecError::MissingUser);
    assert_eq!(parse_hostspec("u@").unwrap_err(), HostSpecError::MissingHost);
    assert_eq!(parse_hostspec("u@h:port").unwrap_err(), HostSpecError::InvalidPort);
    assert_eq!(parse_hostspec("u@:22").unwrap_err(), HostSpecError::MissingHost);
}

#[test]
fn hostspec_uses_last_colon_and_names_session_after_spec() {
    let s = parse_hostspec("a@b@c:2:3").unwrap();
    assert_eq!(s.user, "a");
    assert_eq!(s.host, "b@c:2");
    assert_eq!(s.port, 3);
    assert_eq!(s.name, "a@b@c:2:3");
}

#[test]
fn herdr_plan_adds_port_only_when_not_22() {
    let mut s = Session { user: "u".into(), host: "h".into(), ..Session::default() };
    let p = do_connect(&s, &ConnectConfig { use_herdr: true });
    assert_eq!(p.program, "herdr");
    assert_eq!(p.args, vec!["--remote".to_string(), "u@h".to_string()]);
    assert!(!p.password_handoff);
    s.port = 2200;
    s.password = "pw".into();
    let p = do_connect(&s, &ConnectConfig { use_herdr: true });
    assert_eq!(p.args, vec!["--remote".to_string(), "u@h:2200".to_string()]);
    assert!(p.password_handoff);
}

#[test]
fn ssh_plan_arguments() {
    let s = Session {
        user: "u".into(),
        host: "h".into(),
        port: 2222,
        proxy_jump: Some("bastion".into()),
        password: "pw".into(),
        ..Session::default()
    };
    let p = do_connect(&s, &ConnectConfig { use_herdr: false });
    assert_eq!(p.program, "ssh");
    assert_eq!(
        p.args,
        vec!["-p", "2222", "-J", "bastion", "-o", "StrictHostKeyChecking=accept-new", "u@h"]
            .into_iter()
            .map(String::from)
            .collect::<Vec<_>>()
    );
    let blank_jump = Session { proxy_jump: Some("  ".into()), password: String::new(), ..s };
    let p = do_connect(&blank_jump, &ConnectConfig { use_herdr: false });
    assert_eq!(p.args, vec!["-p".to_string(), "2222".to_string(), "u@h".to_string()]);
}

#[test]
fn connect_direct_uses_plain_ssh() {
    let p = connect_direct("bob@10.0.0.1:2222").unwrap();
    assert_eq!(p.program, "ssh");
    assert_eq!(p.args.last().unwrap(), "bob@10.0.0.1");
    assert!(connect_direct("nope").is_err());
}

#[test]
fn list_prints_table() {
    let s = vec![
        Session { name: "web".into(), host: "10.0.0.1".into(), user: "root".into(), port: 22, ..Session::default() },
        Session { name: "db".into(), host: "db.local".into(), user: String::new(), port: 5432, ..Session::default() },
    ];
    let lines = list_lines(&s);
    assert_eq!(lines.len(), 4);
    assert_eq!(lines[0], format!("{:<20} {:<30} {:<6}", "NAME", "HOST", "PORT"));
    assert_eq!(lines[1], "-".repeat(58));
    assert_eq!(lines[2], format!("{:<20} {:<30} {:<6}", "web", "root@10.0.0.1", 22));
    assert_eq!(lines[3], format!("{:<20} {:<30} {:<6}", "db", "db.local", 5432));
}

#[test]
fn ssm_list_empty() {
    let lines = list_lines(&Vec::new());
    assert_eq!(lines, vec!["No saved sessions. Use `ssm` to open the TUI and add one.".to_string()]);
}

#[test]
fn connect_and_import_messages() {
    let s = Session { name: "x".into(), host: "h".into(), user: "u".into(), port: 2222, ..Session::default() };
    assert_eq!(connecting_message(&s), "Connecting to u@h:2222 \u{2026}");
    assert_eq!(nothing_to_import_message("/home/u/.ssh/config"), "No importable hosts found in /home/u/.ssh/config");
    assert_eq!(imported_message(3, "cfg", 10), "Imported 3 new host(s) from cfg (10 total)");
    let env = askpass_env("/bin/ssm", "/tmp/s.sock", "abc");
    assert_eq!(env[0], ("SSH_ASKPASS".to_string(), "/bin/ssm".to_string()));
    assert_eq!(env[1], ("SSH_ASKPASS_REQUIRE".to_string(), "force".to_string()));
    assert_eq!(env[2], ("SSM_ASKPASS_SOCK".to_string(), "/tmp/s.sock".to_string()));
    assert_eq!(env[3], ("SSM_ASKPASS_NONCE".to_string(), "abc".to_string()));
}

#[test]
fn password_never_in_command() {
    for herdr in [false, true] {
        let cfg = ConnectConfig { use_herdr: herdr };
        let a = Session { name: "x".into(), host: "h".into(), user: "u".into(), password: "one".into(), ..Session::default() };
        let b = Session { password: "two-different".into(), ..a.clone() };
        let pa = do_connect(&a, &cfg);
        let pb = do_connect(&b, &cfg);
        assert_eq!(pa.program, pb.program);
        assert_eq!(pa.args, pb.args);
        assert!(pa.password_handoff);
        assert!(!pa.args.iter().any(|x| x.contains("one")));
    }
}
