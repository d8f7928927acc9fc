use ssm::config::SsmConfig;
use ssm::render::{
    chips, confirm_desc, count_tagged, empty_list_message, field_label, footer_hint, form_hints,
    form_rows, help_lines, help_rows, list_desc, list_rows, list_window, popup_area, row_text,
    screen_title, search_prompt, tag_rows, too_small, Area,
};
use ssm::storage::Session;
use ssm::tui::{FormMode, FormState, SsmApp, SsmScreen, WhichKey};
use ssm::tui_core::{desc_line, header_line, rule_line, FlashKind};

fn sess(name: &str, host: &str, user: &str, tags: &[&str]) -> Session {
    Session {
        name: name.to_string(),
        host: host.to_string(),
        user: user.to_string(),
        port: 22,
        tags: tags.iter().map(|t| t.to_string()).collect(),
        ..Session::default()
    }
}

#[test]
fn header_no_panic() {
    let line = header_line(80, " dots ", "1.0.0");
    assert_eq!(line.chars().count(), 80);
    assert!(line.contains(" dots "));
    assert!(line.contains(" v1.0.0 "));
    let footer = rule_line(80);
    assert_eq!(footer.chars().count(), 80);
}

#[test]
fn header_places_title_and_version() {
    let line: Vec<char> = header_line(30, " ssm ", "0.1.0").chars().collect();
    let s: String = line.iter().collect();
    assert_eq!(s, "\u{2500}\u{2500}\u{2500}\u{2500} ssm \u{2500}\u{2500}\u{2500}\u{2500}\u{2500}\u{2500}\u{2500}\u{2500}\u{2500}\u{2500}\u{2500} v0.1.0 \u{2500}\u{2500}");
    assert_eq!(header_line(0, " ssm ", "1"), "");
    // Too narrow: the version keeps clear of the title and is cut at the edge.
    assert_eq!(header_line(12, " ab ", "9"), "\u{2500}\u{2500}\u{2500}\u{2500} ab \u{2500} v9");
    assert_eq!(header_line(10, " ab ", ""), "\u{2500}\u{2500}\u{2500}\u{2500} ab \u{2500}\u{2500}");
}

#[test]
fn small_terminal_shows_guard_message() {
    assert!(too_small(30, 8));
    assert!(too_small(49, 40));
    assert!(too_small(80, 9));
    assert!(!too_small(50, 10));
}

#[test]
fn desc_shows_flash_or_text() {
    assert_eq!(desc_line("hello", &None), "  \u{203a} hello");
    let flash = Some(("\u{2713} Saved".to_string(), FlashKind::Success));
    assert_eq!(desc_line("hello", &flash), "  \u{2713} Saved");
}

#[test]
fn row_columns_are_padded_and_cut() {
    let s = sess("web", "10.0.0.1", "root", &[]);
    let row = row_text(&s);
    assert_eq!(
        row,
        format!("{:<20} {:<24} {:<6} ", "web", "root@10.0.0.1", 22)
    );
    let long = sess("a-very-long-session-name-here", "a-very-long-hostname.example.com", "someone", &[]);
    let row = row_text(&long);
    assert!(row.starts_with("a-very-long-session- "));
    assert!(row.contains("someone@a-v...xample.com "));
    assert_eq!(row.chars().count(), 20 + 1 + 24 + 1 + 6 + 1);
}

#[test]
fn chips_join_with_spaces() {
    assert_eq!(chips(&vec![]), "");
    assert_eq!(chips(&vec!["prod".to_string(), "web".to_string()]), "prod web");
}

#[test]
fn window_follows_cursor() {
    // 20 lines tall: 13 list rows.
    assert_eq!(list_window(0, 5, 20), (0, 5));
    assert_eq!(list_window(0, 30, 20), (0, 13));
    assert_eq!(list_window(12, 30, 20), (0, 13));
    assert_eq!(list_window(13, 30, 20), (1, 14));
    assert_eq!(list_window(29, 30, 20), (17, 30));
    assert_eq!(list_window(0, 0, 20), (0, 0));
}

#[test]
fn list_rows_show_visible_window() {
    let sessions: Vec<Session> = (0..30).map(|i| sess(&format!("s{i}"), "h", "", &["t"])).collect();
    let mut app = SsmApp::new(SsmConfig::default(), sessions);
    for _ in 0..15 {
        app.move_down(1);
    }
    let rows = list_rows(&app, 20);
    assert_eq!(rows.len(), 13);
    assert_eq!(rows[0].session, 3);
    assert!(rows[12].selected);
    assert_eq!(rows[12].session, 15);
    assert_eq!(rows[0].tags, "t");
    assert!(rows[0].text.starts_with("s3 "));
}

#[test]
fn list_messages() {
    assert_eq!(empty_list_message(false), "No sessions. Press 'a' to add one.");
    assert_eq!(
        empty_list_message(true),
        "No sessions match this tag. Press esc to clear the filter."
    );
    assert_eq!(list_desc(&Some("prod".to_string())), "tag: prod  (esc clears)");
    assert_eq!(list_desc(&None), "");
    assert_eq!(confirm_desc("web"), "Delete 'web'? y/n");
    assert_eq!(search_prompt("pro"), "/ pro_");
}

#[test]
fn form_rows_mask_password_and_show_caret() {
    let mut f = FormState::new_add();
    f.fields[6] = "s3cr\u{e9}t".to_string();
    f.cursor = 6;
    f.focused = true;
    let rows = form_rows(&f, 40);
    assert_eq!(rows.len(), 7);
    assert_eq!(rows[0].label, "Name        ");
    assert_eq!(rows[3].value, "22");
    assert!(rows[6].selected && rows[6].editing);
    // One star per byte of the password, then the caret.
    assert_eq!(rows[6].value, "*******\u{2588}");
    assert_eq!(field_label(4), "ProxyJump");
}

#[test]
fn form_rows_stop_at_screen_bottom() {
    let f = FormState::new_add();
    assert_eq!(form_rows(&f, 12).len(), 3);
    assert_eq!(form_rows(&f, 6).len(), 0);
}

#[test]
fn form_chrome() {
    assert_eq!(screen_title(SsmScreen::Form, FormMode::Edit), " edit session ");
    assert_eq!(screen_title(SsmScreen::TagPick, FormMode::Add), " filter by tag ");
    assert_eq!(footer_hint(SsmScreen::Help, false), " q back ");
    assert_eq!(form_hints(true).1, " type to edit  tab/shift-tab next/prev  enter/esc leave field ");
}

#[test]
fn tag_rows_count_sessions() {
    let app = SsmApp::new(
        SsmConfig::default(),
        vec![
            sess("a", "1", "u", &["web", "prod"]),
            sess("b", "2", "u", &["prod"]),
            sess("c", "3", "u", &[]),
        ],
    );
    let rows = tag_rows(&app, 30);
    assert_eq!(rows.len(), 2);
    assert_eq!(rows[0].text, format!("{:<20}", "prod"));
    assert_eq!(rows[0].count, 2);
    assert!(rows[0].selected);
    assert_eq!(rows[1].count, 1);
    assert_eq!(count_tagged(&app.sessions, "nope"), 0);
    assert_eq!(tag_rows(&app, 8).len(), 1);
}

#[test]
fn help_skips_blank_lines() {
    let all = help_lines();
    assert_eq!(all.len(), 26);
    let rows = help_rows(100);
    assert_eq!(rows.len(), 24);
    assert!(rows[0].heading);
    assert_eq!(rows[1].key, format!("{:<26}", "  j / k"));
    assert_eq!(rows[5].line, 6);
    assert_eq!(help_rows(10).len(), 4);
}

#[test]
fn which_key_popup_renders_settings() {
    let app = SsmApp::new(
        SsmConfig {
            use_herdr: false,
            theme: "auto".to_string(),
            probe: false,
            biometric_unlock: false,
        },
        Vec::new(),
    );
    let rows = WhichKey::Settings.rows(&app);
    assert_eq!(WhichKey::Settings.title(), " settings ");
    assert!(rows.iter().any(|r| r.desc.contains("herdr")));
    assert!(rows.iter().any(|r| r.desc.contains("theme")));
    let area = Area { x: 0, y: 0, width: 80, height: 24 };
    let r = popup_area(area, &rows, WhichKey::Settings.title());
    assert_eq!(r.height, rows.len() as u16 + 3);
    assert!(r.x + r.width < 80);
    assert_eq!(r.y + r.height + 4, 24);
}

#[test]
fn popup_fits_narrow_area() {
    let app = SsmApp::new(SsmConfig::default(), Vec::new());
    let rows = WhichKey::Actions.rows(&app);
    let r = popup_area(Area { x: 5, y: 2, width: 10, height: 5 }, &rows, " actions ");
    assert_eq!(r.width, 8);
    assert_eq!(r.x, 6);
    assert_eq!(r.y, 2);
}
