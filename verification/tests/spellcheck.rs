use openwhatsapp::config::SpellcheckConfig;
use openwhatsapp::spellcheck::{
    action_name, custom_dictionary_languages, installed_languages, is_dictionary_file,
    normalize_languages, resolve_languages, spell_checking_enabled,
};

#[test]
fn language_normalization_sorts_and_deduplicates() {
    assert_eq!(
        normalize_languages(&["en_US", "en_US", " de_DE "].map(String::from)),
        vec!["de_DE".to_string(), "en_US".to_string()]
    );
}

#[test]
fn blank_languages_are_dropped() {
    assert!(normalize_languages(&[" ".to_string(), "".to_string()]).is_empty());
}

#[test]
fn custom_dictionary_language_scan_reads_dic_and_aff() {
    let files = ["/d/en_US.dic", "/d/de_DE.aff", "/d/notes.txt"].map(String::from);

    assert_eq!(
        custom_dictionary_languages(&files),
        vec!["de_DE".to_string(), "en_US".to_string()]
    );
}

#[test]
fn dictionary_file_detection_uses_expected_extensions() {
    assert!(is_dictionary_file("en_US.dic"));
    assert!(is_dictionary_file("en_US.aff"));
    assert!(!is_dictionary_file("en_US.txt"));
}

#[test]
fn action_name_is_simple_action_safe() {
    assert_eq!(action_name("en_US"), "spellcheck-en-us");
}

#[test]
fn configured_languages_resolve_normalized() {
    let config = SpellcheckConfig {
        enabled: true,
        languages: vec!["fr_FR".to_string(), " en_US".to_string()],
        custom_dictionary_dir: None,
    };

    assert_eq!(
        resolve_languages(&config),
        Some(vec!["en_US".to_string(), "fr_FR".to_string()])
    );
    assert_eq!(resolve_languages(&SpellcheckConfig::default()), None);
}

#[test]
fn installed_languages_merge_broker_and_custom() {
    let broker = vec!["en_US".to_string(), "de_DE".to_string()];
    let custom = vec!["de_DE".to_string(), "nl_NL".to_string()];

    assert_eq!(
        installed_languages(&broker, &custom),
        vec!["de_DE".to_string(), "en_US".to_string(), "nl_NL".to_string()]
    );
}

#[test]
fn spell_checking_needs_languages() {
    let mut config = SpellcheckConfig::default();
    assert!(!spell_checking_enabled(&config, &["en_US".to_string()]));
    config.enabled = true;
    assert!(spell_checking_enabled(&config, &["en_US".to_string()]));
    assert!(!spell_checking_enabled(&config, &[]));
}

#[test]
fn normalizing_twice_changes_nothing() {
    let once = normalize_languages(&[" fr_FR", "en_US ", "fr_FR", "", "de_DE"].map(String::from));

    assert_eq!(normalize_languages(&once), once);
}
