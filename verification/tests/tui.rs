use ssm::config::SsmConfig;
use ssm::storage::Session;
use ssm::tui::{
    parse_tags, truncate, truncate_middle, Effect, FormMode, FormState, Key, KeyInput, SsmApp,
    SsmScreen, WhichKey,
};
use ssm::tui_core::FlashKind;

fn make_app() -> SsmApp {
    SsmApp::new(
        SsmConfig {
            use_herdr: false,
            theme: "auto".to_string(),
            probe: false,
            biometric_unlock: false,
        },
        Vec::new(),
    )
}

fn sess(name: &str, host: &str, user: &str, tags: &[&str]) -> Session {
    Session {
        name: name.to_string(),
        host: host.to_string(),
        user: user.to_string(),
        port: 22,
        tags: tags.iter().map(|t| t.to_string()).collect(),
        ..Session::default()
    }
}

fn key(c: char) -> KeyInput {
    KeyInput { code: Key::Char(c), ctrl: false }
}

fn code(k: Key) -> KeyInput {
    KeyInput { code: k, ctrl: false }
}

#[test]
fn form_rejects_empty_name() {
    let mut f = FormState::new_add();
    f.fields[1] = "host".to_string();
    f.fields[2] = "user".to_string();
    f.fields[3] = "22".to_string();
    assert!(f.validate().is_some());
}

#[test]
fn form_rejects_bad_port() {
    let mut f = FormState::new_add();
    f.fields[0] = "myhost".to_string();
    f.fields[1] = "1.2.3.4".to_string();
    f.fields[2] = "alice".to_string();
    f.fields[3] = "notaport".to_string();
    assert!(f.validate().is_some());
}

#[test]
fn form_accepts_valid_session() {
    let mut f = FormState::new_add();
    f.fields[0] = "prod".to_string();
    f.fields[1] = "10.0.0.1".to_string();
    f.fields[2] = "root".to_string();
    f.fields[3] = "22".to_string();
    assert!(f.validate().is_none());
    assert!(f.to_session().is_some());
}

#[test]
fn search_filters_by_name() {
    let mut app = make_app();
    app.sessions = vec![
        Session {
            name: "prod-web".to_string(),
            host: "1.1.1.1".to_string(),
            user: "alice".to_string(),
            port: 22,
            ..Session::default()
        },
        Session {
            name: "staging".to_string(),
            host: "2.2.2.2".to_string(),
            user: "bob".to_string(),
            port: 22,
            ..Session::default()
        },
        Session {
            name: "dev-box".to_string(),
            host: "3.3.3.3".to_string(),
            user: "carol".to_string(),
            port: 22,
            ..Session::default()
        },
    ];
    app.search_query = "prod".to_string();
    app.filter_active = true;
    app.rebuild_visible();

    assert_eq!(app.active_len(), 1);
    assert_eq!(app.active_session(0).unwrap().name, "prod-web");
}

#[test]
fn search_filters_by_host() {
    let mut app = make_app();
    app.sessions = vec![
        sess("a", "alpha.example.com", "u", &[]),
        sess("b", "beta.example.com", "u", &[]),
    ];
    app.search_query = "alpha".to_string();
    app.filter_active = true;
    app.rebuild_visible();

    assert_eq!(app.active_len(), 1);
}

#[test]
fn tag_filter_narrows_list() {
    let mut app = make_app();
    app.sessions = vec![
        sess("web1", "1", "u", &["web", "prod"]),
        sess("db1", "2", "u", &["db"]),
        sess("web2", "3", "u", &["web"]),
    ];
    app.tag_filter = Some("web".into());
    app.rebuild_visible();
    assert_eq!(app.active_len(), 2);
}

#[test]
fn search_matches_tags() {
    let mut app = make_app();
    app.sessions = vec![sess("alpha", "1", "u", &["staging"]), sess("beta", "2", "u", &["prod"])];
    app.search_query = "staging".into();
    app.filter_active = true;
    app.rebuild_visible();
    assert_eq!(app.active_len(), 1);
    assert_eq!(app.active_session(0).unwrap().name, "alpha");
}

#[test]
fn all_tags_are_sorted_and_unique() {
    let mut app = make_app();
    app.sessions = vec![sess("a", "1", "u", &["web", "prod"]), sess("b", "2", "u", &["prod", "db"])];
    assert_eq!(
        app.all_tags(),
        vec!["db".to_string(), "prod".to_string(), "web".to_string()]
    );
}

#[test]
fn form_roundtrips_tags_and_jump() {
    let s = Session {
        name: "web".into(),
        host: "10.0.0.1".into(),
        user: "deploy".into(),
        port: 2222,
        tags: vec!["prod".into(), "web".into()],
        proxy_jump: Some("bastion".into()),
        password: String::new(),
    };
    let form = FormState::from_session(&s, 0);
    let back = form.to_session().unwrap();
    assert_eq!(back.tags, vec!["prod".to_string(), "web".to_string()]);
    assert_eq!(back.proxy_jump.as_deref(), Some("bastion"));
    assert_eq!(back.port, 2222);
}

#[test]
fn parse_tags_splits_and_dedups() {
    assert_eq!(
        parse_tags("prod, web  prod"),
        vec!["prod".to_string(), "web".to_string()]
    );
    assert!(parse_tags("   ").is_empty());
}

#[test]
fn parse_tags_keeps_first_occurrence_order() {
    assert_eq!(
        parse_tags("b,a,,b\ta"),
        vec!["b".to_string(), "a".to_string()]
    );
}

#[test]
fn form_reports_each_missing_field() {
    let mut f = FormState::new_add();
    assert_eq!(f.validate().as_deref(), Some("Name is required"));
    f.fields[0] = "n".to_string();
    assert_eq!(f.validate().as_deref(), Some("Host is required"));
    f.fields[1] = "h".to_string();
    assert_eq!(f.validate().as_deref(), Some("User is required"));
    f.fields[2] = "u".to_string();
    f.fields[3] = "70000".to_string();
    assert_eq!(f.validate().as_deref(), Some("Port must be 1-65535"));
    assert!(f.validate().is_some());
    f.fields[3] = "2200".to_string();
    assert!(f.validate().is_none());
    let s = f.to_session().unwrap();
    assert_eq!(s.port, 2200);
    assert_eq!(s.user, "u");
    assert_eq!(s.proxy_jump, None);
}

#[test]
fn form_from_session_is_edit_mode() {
    let s = sess("web", "h", "u", &["a", "b"]);
    let f = FormState::from_session(&s, 3);
    assert_eq!(f.mode, FormMode::Edit);
    assert_eq!(f.edit_idx, Some(3));
    assert_eq!(f.fields[0], "web");
    assert_eq!(f.fields[3], "22");
}

#[test]
fn list_navigation_with_counts() {
    let sessions = (0..5).map(|i| sess(&format!("s{i}"), "h", "u", &[])).collect();
    let mut app = SsmApp::new(SsmConfig::default(), sessions);
    assert_eq!(app.handle_key(key('j')), Effect::Nothing);
    assert_eq!(app.idx, 1);
    app.handle_key(key('3'));
    app.handle_key(key('j'));
    assert_eq!(app.idx, 4);
    app.handle_key(key('j'));
    assert_eq!(app.idx, 4);
    app.handle_key(key('g'));
    app.handle_key(key('g'));
    assert_eq!(app.idx, 0);
    app.handle_key(key('G'));
    assert_eq!(app.idx, 4);
    app.handle_key(code(Key::Up));
    assert_eq!(app.idx, 3);
}

#[test]
fn quit_and_reload_keys() {
    let mut app = make_app();
    assert_eq!(app.handle_key(key('u')), Effect::ReloadSessions);
    assert!(!app.should_quit);
    app.handle_key(key('q'));
    assert!(app.should_quit);
}

#[test]
fn enter_sets_connect_target() {
    let mut app = SsmApp::new(SsmConfig::default(), vec![sess("a", "h1", "u", &[]), sess("b", "h2", "u", &[])]);
    app.handle_key(key('j'));
    app.handle_key(code(Key::Enter));
    assert_eq!(app.connect_target.as_ref().unwrap().name, "b");
}

#[test]
fn settings_toggle_herdr_persists() {
    let mut app = make_app();
    app.handle_key(key(' '));
    assert_eq!(app.menu, Some(WhichKey::Actions));
    app.handle_key(key('s'));
    assert_eq!(app.menu, Some(WhichKey::Settings));
    let e = app.handle_key(key('h'));
    assert_eq!(e, Effect::PersistConfig("\u{2713} herdr enabled".to_string()));
    assert!(app.cfg.use_herdr);
    assert_eq!(app.menu, None);
}

#[test]
fn theme_picker_switches_theme() {
    let mut app = make_app();
    app.handle_key(key('s'));
    app.handle_key(key('t'));
    assert_eq!(app.menu, Some(WhichKey::Theme));
    let e = app.handle_key(key('g'));
    assert_eq!(e, Effect::PersistConfig("\u{2713} theme: gruvbox".to_string()));
    assert_eq!(app.theme, "gruvbox");
}

#[test]
fn add_form_saves_new_session() {
    let mut app = make_app();
    app.handle_key(key('a'));
    assert_eq!(app.screen, SsmScreen::Form);
    app.handle_key(code(Key::Enter));
    for c in "prod".chars() {
        app.handle_key(key(c));
    }
    app.handle_key(code(Key::Tab));
    for c in "10.0.0.1".chars() {
        app.handle_key(key(c));
    }
    app.handle_key(code(Key::Tab));
    for c in "root".chars() {
        app.handle_key(key(c));
    }
    app.handle_key(code(Key::Esc));
    let e = app.handle_key(key('S'));
    assert_eq!(e, Effect::SaveForm);
    assert_eq!(app.sessions.len(), 1);
    assert_eq!(app.sessions[0].name, "prod");
    assert_eq!(app.sessions[0].host, "10.0.0.1");
    app.finish_save_form(None);
    assert_eq!(app.screen, SsmScreen::List);
    assert_eq!(app.flash, Some(("\u{2713} Saved".to_string(), FlashKind::Success)));
}

#[test]
fn add_form_refuses_duplicate_name() {
    let mut app = SsmApp::new(SsmConfig::default(), vec![sess("prod", "h", "u", &[])]);
    app.handle_key(key('a'));
    app.form.fields[0] = "prod".to_string();
    app.form.fields[1] = "other".to_string();
    app.form.fields[2] = "u".to_string();
    let e = app.handle_key(key('S'));
    assert_eq!(e, Effect::Nothing);
    assert_eq!(app.sessions.len(), 1);
    assert_eq!(
        app.flash,
        Some(("Name 'prod' already exists".to_string(), FlashKind::Error))
    );
}

#[test]
fn delete_needs_confirmation() {
    let mut app = SsmApp::new(SsmConfig::default(), vec![sess("a", "h", "u", &[]), sess("b", "h", "u", &[])]);
    app.handle_key(key('D'));
    assert_eq!(app.screen, SsmScreen::ConfirmDelete);
    let e = app.handle_key(key('y'));
    assert_eq!(e, Effect::DeleteSession("a".to_string()));
    assert_eq!(app.sessions.len(), 1);
    assert_eq!(app.sessions[0].name, "b");
}

#[test]
fn delete_cancelled_keeps_list() {
    let mut app = SsmApp::new(SsmConfig::default(), vec![sess("a", "h", "u", &[])]);
    app.handle_key(key('D'));
    let e = app.handle_key(key('n'));
    assert_eq!(e, Effect::Nothing);
    assert_eq!(app.sessions.len(), 1);
    assert_eq!(app.screen, SsmScreen::List);
}

#[test]
fn search_typing_filters_live() {
    let mut app = SsmApp::new(
        SsmConfig::default(),
        vec![sess("alpha", "1", "u", &[]), sess("beta", "2", "u", &[])],
    );
    app.handle_key(key('/'));
    assert_eq!(app.screen, SsmScreen::Search);
    for c in "BET".chars() {
        app.handle_key(key(c));
    }
    app.handle_key(code(Key::Enter));
    assert_eq!(app.screen, SsmScreen::List);
    assert_eq!(app.active_len(), 1);
    assert_eq!(app.active_session(0).unwrap().name, "beta");
    app.handle_key(key('/'));
    app.handle_key(code(Key::Esc));
    assert_eq!(app.active_len(), 2);
}

#[test]
fn yank_copies_target() {
    let mut app = SsmApp::new(SsmConfig::default(), vec![sess("a", "example.com", "alice", &[])]);
    let e = app.handle_key(key('y'));
    assert_eq!(e, Effect::Yank("alice@example.com".to_string()));
    app.finish_yank("alice@example.com".to_string(), None);
    assert_eq!(
        app.flash,
        Some(("\u{2713} Copied 'alice@example.com' to clipboard".to_string(), FlashKind::Success))
    );
}

#[test]
fn import_adds_only_new_names() {
    let mut app = SsmApp::new(SsmConfig::default(), vec![sess("web", "h", "u", &[])]);
    app.handle_key(key(' '));
    assert_eq!(app.handle_key(key('i')), Effect::ImportSshConfig);
    let e = app.finish_import(Ok(vec![sess("web", "x", "u", &[]), sess("db", "y", "u", &[])]));
    assert_eq!(e, Effect::SaveImport(1));
    assert_eq!(app.sessions.len(), 2);
    assert_eq!(app.sessions[1].name, "db");
}

#[test]
fn import_error_is_flashed() {
    let mut app = make_app();
    let e = app.finish_import(Err("no such file".to_string()));
    assert_eq!(e, Effect::Nothing);
    assert_eq!(
        app.flash,
        Some(("\u{2717} Import failed: no such file".to_string(), FlashKind::Error))
    );
}

#[test]
fn which_key_titles() {
    assert_eq!(WhichKey::Actions.title(), " actions ");
    assert_eq!(WhichKey::Settings.title(), " settings ");
    assert_eq!(WhichKey::Theme.title(), " theme ");
}

#[test]
fn settings_rows_show_state() {
    let app = make_app();
    let rows = WhichKey::Settings.rows(&app);
    assert!(rows.iter().any(|r| r.key == "h" && r.desc.contains("herdr")));
    assert!(rows.iter().any(|r| r.key == "t" && r.desc.contains("theme")));
}

#[test]
fn truncate_keeps_first_chars() {
    assert_eq!(truncate("hello", 10), "hello");
    assert_eq!(truncate("hello world", 5), "hello");
    assert_eq!(truncate("h\u{e9}llo", 2), "h\u{e9}");
    assert_eq!(truncate("abc", 0), "");
}

#[test]
fn truncate_middle_keeps_both_ends() {
    assert_eq!(truncate_middle("short", 10), "short");
    assert_eq!(truncate_middle("abcdefghij", 5), "a...j");
    assert_eq!(truncate_middle("abcdefghij", 8), "abc...ij");
    assert_eq!(truncate_middle("abcdefghij", 3), "abc");
}

#[test]
fn dd_asks_to_delete() {
    let mut app = SsmApp::new(SsmConfig::default(), vec![sess("a", "h", "u", &[]), sess("b", "h", "u", &[])]);
    app.handle_key(key('d'));
    assert_eq!(app.screen, SsmScreen::List);
    app.handle_key(key('d'));
    assert_eq!(app.screen, SsmScreen::ConfirmDelete);
}

#[test]
fn other_key_disarms_pending_d() {
    let mut app = SsmApp::new(SsmConfig::default(), vec![sess("a", "h", "u", &[]), sess("b", "h", "u", &[])]);
    app.handle_key(key('d'));
    app.handle_key(key('j'));
    app.handle_key(key('d'));
    assert_eq!(app.screen, SsmScreen::List);
    assert_eq!(app.idx, 1);
}

#[test]
fn question_mark_toggles_help() {
    let mut app = make_app();
    app.handle_key(key('?'));
    assert_eq!(app.screen, SsmScreen::Help);
    app.handle_key(key('?'));
    assert_eq!(app.screen, SsmScreen::List);
}
