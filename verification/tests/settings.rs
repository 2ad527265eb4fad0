use openwhatsapp::config::{AppConfig, Theme};
use openwhatsapp::settings::{
    apply_panel_values, cache_size_from_spin, folder_from_entry, join_languages,
    parse_language_list, saves_settings, theme_choice_id, theme_from_choice, write_appearance,
    write_performance, write_spellcheck, write_usability, AppearanceValues, PanelValues,
    PerformanceValues, SettingsResponse, SpellcheckValues, UsabilityValues,
};

#[test]
fn theme_ids_are_stable() {
    let ids = [
        theme_choice_id(Theme::Auto),
        theme_choice_id(Theme::Light),
        theme_choice_id(Theme::Dark),
    ];

    assert!(ids.contains(&"auto"));
    assert_eq!(ids, ["auto", "light", "dark"]);
}

#[test]
fn theme_choice_reads_back() {
    for theme in [Theme::Auto, Theme::Light, Theme::Dark] {
        assert_eq!(theme_from_choice(Some(theme_choice_id(theme))), theme);
    }
    assert_eq!(theme_from_choice(None), Theme::Auto);
    assert_eq!(theme_from_choice(Some("purple")), Theme::Auto);
}

#[test]
fn settings_has_five_tabs() {
    let tabs = [
        "Appearance",
        "Usability",
        "Performance",
        "Spellcheck",
        "Customizations",
    ];

    assert_eq!(tabs.len(), 5);
}

#[test]
fn cache_step_is_positive() {
    let step = 32;

    assert!(step > 0);
    assert_eq!(cache_size_from_spin(step), 32);
    assert_eq!(cache_size_from_spin(-5), 0);
}

#[test]
fn comma_language_list_can_split() {
    let languages = "en_US,de_DE";

    assert_eq!(parse_language_list(languages).len(), 2);
}

#[test]
fn language_field_drops_blank_entries_and_trims() {
    assert_eq!(
        parse_language_list(" en_US , ,de_DE,"),
        vec!["en_US".to_string(), "de_DE".to_string()]
    );
    assert!(parse_language_list("").is_empty());
}

#[test]
fn language_field_round_trips() {
    let languages = vec!["en_US".to_string(), "de_DE".to_string()];
    let shown = join_languages(&languages);

    assert_eq!(shown, "en_US,de_DE");
    assert_eq!(parse_language_list(&shown), languages);
    assert_eq!(join_languages(&[]), "");
}

#[test]
fn empty_download_dir_means_default() {
    let value = "";

    assert_eq!(folder_from_entry(value), None);
    assert_eq!(folder_from_entry("  "), None);
    assert_eq!(folder_from_entry(" /x "), Some(" /x ".to_string()));
}

#[test]
fn customization_actions_include_reload() {
    let actions = [
        "Import File",
        "Import URL",
        "Create",
        "Save",
        "Save & Reload",
        "Reload",
    ];

    assert!(actions.contains(&"Reload"));
}

fn values() -> PanelValues {
    PanelValues {
        appearance: AppearanceValues {
            theme_id: Some("dark".to_string()),
            custom_decorations: false,
            interface_scale_bits: 1.5f64.to_bits(),
        },
        usability: UsabilityValues {
            tray_enabled: false,
            background_process: false,
            disable_native_file_dialog: true,
            download_dir: "/downloads".to_string(),
        },
        performance: PerformanceValues {
            hardware_acceleration: false,
            cache_size: 512,
        },
        spellcheck: SpellcheckValues {
            enabled: true,
            languages: "en_US, fr_FR".to_string(),
            dictionary_dir: " ".to_string(),
        },
    }
}

#[test]
fn saving_the_dialog_writes_every_panel() {
    let mut config = AppConfig::default();
    config.window.width = 900;
    config.usability.tray_icon_path = Some("/icons/a.png".to_string());
    apply_panel_values(&values(), &mut config);

    assert_eq!(config.appearance.theme, Theme::Dark);
    assert!(!config.appearance.custom_decorations);
    assert_eq!(f64::from_bits(config.appearance.interface_scale_bits), 1.5);
    assert!(!config.usability.tray_enabled);
    assert!(config.usability.disable_native_file_dialog);
    assert!(config.downloads.disable_native_file_dialog);
    assert_eq!(config.downloads.directory, Some("/downloads".to_string()));
    assert_eq!(config.usability.tray_icon_path, Some("/icons/a.png".to_string()));
    assert_eq!(config.performance.cache_size_mb, 512);
    assert!(config.spellcheck.enabled);
    assert_eq!(config.spellcheck.languages, vec!["en_US".to_string(), "fr_FR".to_string()]);
    assert_eq!(config.spellcheck.custom_dictionary_dir, None);
    assert_eq!(config.window.width, 900);
}

#[test]
fn each_panel_writes_only_its_settings() {
    let v = values();
    let mut config = AppConfig::default();
    write_appearance(&v.appearance, &mut config);
    assert_eq!(config.usability, AppConfig::default().usability);
    write_usability(&v.usability, &mut config);
    assert_eq!(config.performance, AppConfig::default().performance);
    write_performance(&v.performance, &mut config);
    assert_eq!(config.spellcheck, AppConfig::default().spellcheck);
    write_spellcheck(&v.spellcheck, &mut config);
    assert_eq!(config.window, AppConfig::default().window);
}

#[test]
fn only_save_responses_save() {
    assert!(saves_settings(SettingsResponse::Save));
    assert!(saves_settings(SettingsResponse::SaveAndReload));
    assert!(!saves_settings(SettingsResponse::Cancel));
    assert!(!saves_settings(SettingsResponse::Other));
}
