use ssm::config::{config_path, SsmConfig};

#[test]
fn default_uses_herdr() {
    assert!(SsmConfig::default().use_herdr);
}

#[test]
fn default_theme_is_auto_probe_on_biometric_off() {
    let c = SsmConfig::default();
    assert_eq!(c.theme, "auto");
    assert!(c.probe);
    assert!(!c.biometric_unlock);
}

#[test]
fn config_path_honours_override_dir() {
    assert_eq!(config_path(Some("/srv/ssm".to_string())), "/srv/ssm/config.toml");
    assert_eq!(config_path(Some("/srv/ssm/".to_string())), "/srv/ssm/config.toml");
}

#[test]
fn config_path_defaults_under_home() {
    let p = config_path(None);
    assert!(p.ends_with("/.config/ssm/config.toml"));
}
