use ssm::tui_core::theme::{current, set_theme, theme_index, themes, THEME_COUNT};

#[test]
fn auto_is_first_and_default() {
    assert_eq!(themes()[0].name, "auto");
    assert_eq!(current(0).name, "auto");
}

#[test]
fn set_known_theme_switches() {
    let mut active: usize = 0;
    assert!(set_theme(&mut active, "gruvbox"));
    assert_eq!(current(active).name, "gruvbox");
    set_theme(&mut active, "auto");
    assert_eq!(current(active).name, "auto");
}

#[test]
fn set_unknown_theme_is_noop() {
    let mut active: usize = 0;
    set_theme(&mut active, "auto");
    assert!(!set_theme(&mut active, "does-not-exist"));
    assert_eq!(current(active).name, "auto");
}

#[test]
fn theme_keys_are_unique() {
    let all = themes();
    for (i, a) in all.iter().enumerate() {
        for b in &all[i + 1..] {
            assert_ne!(a.key, b.key, "duplicate key {} on {} and {}", a.key, a.name, b.name);
        }
    }
}

#[test]
fn theme_index_finds_every_theme() {
    let all = themes();
    assert_eq!(all.len(), THEME_COUNT);
    for (i, t) in all.iter().enumerate() {
        assert_eq!(theme_index(t.name), Some(i));
    }
    assert_eq!(theme_index("nope"), None);
}

#[test]
fn out_of_range_index_means_last_theme() {
    assert_eq!(current(THEME_COUNT + 3).name, "tokyo-night");
}
