use openwhatsapp::config::Theme;
use openwhatsapp::theme::{
    apply_system_scheme, parse_setting_changed, prefer_dark_for, theme_for_system_scheme,
    watches_system_changes, SystemColorScheme,
};

#[test]
fn dark_preference_enables_dark_theme() {
    assert!(prefer_dark_for(&Theme::Dark));
    assert!(!prefer_dark_for(&Theme::Light));
    assert!(!prefer_dark_for(&Theme::Auto));
}

#[test]
fn system_scheme_maps_to_effective_theme() {
    assert_eq!(theme_for_system_scheme(SystemColorScheme::PreferDark), Theme::Dark);
    assert_eq!(theme_for_system_scheme(SystemColorScheme::PreferLight), Theme::Light);
    assert_eq!(theme_for_system_scheme(SystemColorScheme::NoPreference), Theme::Auto);
}

#[test]
fn portal_values_map_to_color_scheme() {
    assert_eq!(SystemColorScheme::from(0), SystemColorScheme::NoPreference);
    assert_eq!(SystemColorScheme::from(1), SystemColorScheme::PreferDark);
    assert_eq!(SystemColorScheme::from(2), SystemColorScheme::PreferLight);
    assert_eq!(SystemColorScheme::from(99), SystemColorScheme::NoPreference);
}

#[test]
fn setting_changed_parser_ignores_other_keys() {
    assert_eq!(parse_setting_changed(Some("org.example"), Some("color-scheme"), Some(1)), None);
    assert_eq!(
        parse_setting_changed(Some("org.freedesktop.appearance"), Some("accent-color"), Some(1)),
        None
    );
    assert_eq!(
        parse_setting_changed(Some("org.freedesktop.appearance"), Some("color-scheme"), None),
        None
    );
}

#[test]
fn setting_changed_parser_reads_color_scheme() {
    assert_eq!(
        parse_setting_changed(Some("org.freedesktop.appearance"), Some("color-scheme"), Some(1)),
        Some(SystemColorScheme::PreferDark)
    );
}

#[test]
fn applying_a_scheme_requests_dark_only_for_dark() {
    let dark = apply_system_scheme(SystemColorScheme::PreferDark);
    assert_eq!(dark.theme, Theme::Dark);
    assert!(dark.prefer_dark);
    let none = apply_system_scheme(SystemColorScheme::NoPreference);
    assert_eq!(none.theme, Theme::Auto);
    assert!(!none.prefer_dark);
    assert!(watches_system_changes(&Theme::Auto));
    assert!(!watches_system_changes(&Theme::Dark));
}
