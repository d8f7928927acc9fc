use ssm::storage::legacy_writes;
use ssm::paths::{join, ssm_file, under_home};
use ssm::storage::{keychain_writes, sessions_path, Session, KEYCHAIN_SERVICE};

fn with_pw(name: &str, pw: &str) -> Session {
    Session {
        name: name.to_string(),
        host: "h".to_string(),
        password: pw.to_string(),
        ..Session::default()
    }
}

#[test]
fn default_session_is_blank_with_port_22() {
    let s = Session::default();
    assert_eq!(s.name, "");
    assert_eq!(s.port, 22);
    assert!(s.tags.is_empty());
    assert!(s.proxy_jump.is_none());
    assert_eq!(s.password, "");
}

#[test]
fn duplicate_copies_every_field() {
    let s = Session {
        name: "web".into(),
        host: "10.0.0.1".into(),
        user: "deploy".into(),
        port: 2222,
        proxy_jump: Some("bastion".into()),
        tags: vec!["prod".into()],
        password: "pw".into(),
    };
    let d = s.duplicate();
    assert_eq!(d.name, "web");
    assert_eq!(d.host, "10.0.0.1");
    assert_eq!(d.user, "deploy");
    assert_eq!(d.port, 2222);
    assert_eq!(d.proxy_jump.as_deref(), Some("bastion"));
    assert_eq!(d.tags, vec!["prod".to_string()]);
    assert_eq!(d.password, "pw");
}

#[test]
fn only_sessions_with_passwords_go_to_keychain() {
    let sessions = vec![with_pw("a", "one"), with_pw("b", ""), with_pw("c", "three")];
    let w = keychain_writes(&sessions);
    assert_eq!(
        w,
        vec![
            ("a".to_string(), "one".to_string()),
            ("c".to_string(), "three".to_string())
        ]
    );
    assert!(keychain_writes(&Vec::new()).is_empty());
}

#[test]
fn keychain_service_name() {
    assert_eq!(KEYCHAIN_SERVICE, "dots-ssm");
}

#[test]
fn sessions_path_honours_override_dir() {
    assert_eq!(sessions_path(Some("/data".to_string())), "/data/sessions.json");
    assert!(sessions_path(None).ends_with("/.config/ssm/sessions.json"));
}

#[test]
fn join_follows_path_join() {
    assert_eq!(join("/a", "b"), "/a/b");
    assert_eq!(join("/a/", "b"), "/a/b");
    assert_eq!(join("", "b"), "b");
    assert_eq!(join("/a", "/abs"), "/abs");
}

#[test]
fn under_home_falls_back_to_tmp() {
    assert_eq!(under_home(None, ".ssh/config"), "/tmp/.ssh/config");
    assert_eq!(under_home(Some("/home/u".to_string()), ".ssh/config"), "/home/u/.ssh/config");
}

#[test]
fn ssm_file_prefers_override() {
    assert_eq!(ssm_file(Some("/x".to_string()), "f.json", ".config/ssm/f.json"), "/x/f.json");
}

#[test]
fn migration_strips_plaintext_password() {
    let records = vec![
        ("old".to_string(), Some("hunter2".to_string())),
        ("new".to_string(), None),
        ("blank".to_string(), Some(String::new())),
    ];
    let w = legacy_writes(&records);
    assert_eq!(w, vec![("old".to_string(), "hunter2".to_string())]);
    let none = legacy_writes(&vec![("x".to_string(), None)]);
    assert!(none.is_empty());
}
