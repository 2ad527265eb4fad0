use openwhatsapp::config::{AppConfig, Theme, CURRENT_CONFIG_VERSION, DEFAULT_INTERFACE_SCALE_BITS};

#[test]
fn default_config_uses_current_version() {
    assert_eq!(AppConfig::default().version, CURRENT_CONFIG_VERSION);
}

#[test]
fn old_config_migrates_to_current_version() {
    let config = AppConfig {
        version: 0,
        ..AppConfig::default()
    };

    assert_eq!(config.migrate().version, CURRENT_CONFIG_VERSION);
}

#[test]
fn newer_config_keeps_its_version_and_settings() {
    let mut config = AppConfig {
        version: 7,
        ..AppConfig::default()
    };
    config.appearance.theme = Theme::Dark;
    let migrated = config.clone().migrate();

    assert_eq!(migrated.version, 7);
    assert_eq!(migrated.appearance, config.appearance);
    assert_eq!(migrated.clone().migrate(), migrated);
}

#[test]
fn default_interface_scale_is_one() {
    assert_eq!(
        f64::from_bits(AppConfig::default().appearance.interface_scale_bits),
        1.0
    );
    assert_eq!(DEFAULT_INTERFACE_SCALE_BITS, 1.0f64.to_bits());
}

#[test]
fn configure_accepts_default_config_values() {
    let config = AppConfig::default();

    assert!(config.window.width > 0);
    assert!(config.window.height > 0);
}

#[test]
fn custom_decorations_default_to_enabled_in_config() {
    assert!(AppConfig::default().appearance.custom_decorations);
}

#[test]
fn disabled_default_config_stays_disabled() {
    let config = openwhatsapp::config::SpellcheckConfig::default();

    assert!(!config.enabled);
}
