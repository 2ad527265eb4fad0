use openwhatsapp::accounts::Account;
use openwhatsapp::config::DownloadConfig;
use openwhatsapp::downloads::{
    choose_download_dir, cleanup_temp_folder, destination_in, prepare_temp_folder, safe_filename,
    temp_candidates, temp_candidates_from, temp_candidates_in, unique_destination, CleanupStep, PrepareStep,
};
use openwhatsapp::paths::{temp_download_dir, PathError};

fn account(custom: Option<&str>) -> Account {
    Account {
        id: 7,
        display_name: "Work".to_string(),
        avatar_path: None,
        created_at: 0,
        custom_download_dir: custom.map(|s| s.to_string()),
        customization_override: false,
    }
}

#[test]
fn safe_filename_strips_parent_components() {
    assert_eq!(safe_filename("../secret.txt"), "secret.txt");
    assert_eq!(safe_filename(""), "download");
}

#[test]
fn safe_filename_replaces_blank_and_dot_names() {
    assert_eq!(safe_filename("a/b/.."), "download");
    assert_eq!(safe_filename("   "), "download");
    assert_eq!(safe_filename("/tmp/report.pdf"), "report.pdf");
}

#[test]
fn unique_destination_adds_suffix() {
    let existing = vec!["file.txt".to_string()];

    assert_eq!(
        unique_destination("/tmp/openwhatsapp-downloads", "file.txt", &existing),
        "/tmp/openwhatsapp-downloads/file (1).txt"
    );
}

#[test]
fn unique_destination_keeps_a_free_name_and_skips_taken_numbers() {
    let existing = vec![
        "file.txt".to_string(),
        "file (1).txt".to_string(),
        "notes".to_string(),
    ];

    assert_eq!(unique_destination("/d", "other.txt", &existing), "/d/other.txt");
    assert_eq!(unique_destination("/d", "file.txt", &existing), "/d/file (2).txt");
    assert_eq!(unique_destination("/d", "notes", &existing), "/d/notes (1)");
}

#[test]
fn destination_uses_the_safe_name() {
    let existing = vec!["secret.txt".to_string()];

    assert_eq!(destination_in("/d", "../secret.txt", &existing), "/d/secret (1).txt");
    assert_eq!(destination_in("/d", "", &existing), "/d/download");
}

#[test]
fn download_dir_prefers_account_then_config_then_xdg() {
    let config = DownloadConfig {
        directory: Some("/config".to_string()),
        disable_native_file_dialog: false,
    };
    let none = DownloadConfig::default();

    assert_eq!(
        choose_download_dir(&config, &account(Some("/mine")), Some("/xdg".to_string())),
        Ok("/mine".to_string())
    );
    assert_eq!(
        choose_download_dir(&config, &account(None), Some("/xdg".to_string())),
        Ok("/config".to_string())
    );
    assert_eq!(
        choose_download_dir(&none, &account(None), Some("/xdg".to_string())),
        Ok("/xdg".to_string())
    );
    assert_eq!(
        choose_download_dir(&none, &account(None), None),
        Err(PathError::NoDownloadDir)
    );
}

#[test]
fn prepare_returns_tmp_directory() {
    let path = temp_download_dir("/tmp");

    assert!(path.ends_with("/tmp"));
    assert_eq!(openwhatsapp::paths::file_name(&path), Some("tmp".to_string()));
}

#[test]
fn temp_candidates_include_fallback() {
    assert!(temp_candidates("/tmp")
        .iter()
        .any(|path| path.starts_with("/tmp")));
}

#[test]
fn temp_candidates_drop_a_repeated_fallback() {
    assert_eq!(
        temp_candidates_from("/a".to_string(), "/a".to_string()),
        vec!["/a".to_string()]
    );
    assert_eq!(
        temp_candidates_from("/a".to_string(), "/b".to_string()),
        vec!["/a".to_string(), "/b".to_string()]
    );
}

#[test]
fn preparing_tries_candidates_in_order() {
    let candidates = vec!["/a".to_string(), "/b".to_string()];

    assert_eq!(prepare_temp_folder(&candidates, &[]), PrepareStep::Create("/a".to_string()));
    assert_eq!(
        prepare_temp_folder(&candidates, &[false]),
        PrepareStep::Create("/b".to_string())
    );
    assert_eq!(
        prepare_temp_folder(&candidates, &[false, true]),
        PrepareStep::Ready("/b".to_string())
    );
    assert_eq!(
        prepare_temp_folder(&candidates, &[false, false]),
        PrepareStep::Failed("/b".to_string())
    );
    assert_eq!(prepare_temp_folder(&[], &[]), PrepareStep::NoCandidates);
}

#[test]
fn cleanup_removes_every_candidate_and_stops_at_a_failure() {
    let candidates = vec!["/a".to_string(), "/b".to_string()];
    let probe = |d: &str| CleanupStep::Probe(d.to_string());

    assert_eq!(cleanup_temp_folder(&candidates, &[]), probe("/a"));
    assert_eq!(cleanup_temp_folder(&candidates, &[true]), CleanupStep::Remove("/a".to_string()));
    assert_eq!(cleanup_temp_folder(&candidates, &[true, true]), probe("/b"));
    assert_eq!(
        cleanup_temp_folder(&candidates, &[true, true, true]),
        CleanupStep::Remove("/b".to_string())
    );
    assert_eq!(cleanup_temp_folder(&candidates, &[true, true, true, true]), CleanupStep::Done);
    assert_eq!(
        cleanup_temp_folder(&candidates, &[true, false]),
        CleanupStep::Failed("/a".to_string())
    );
    assert_eq!(
        cleanup_temp_folder(&candidates, &[true, false, true]),
        CleanupStep::Failed("/a".to_string())
    );
}

#[test]
fn cleanup_skips_absent_candidates() {
    let candidates = vec!["/a".to_string(), "/b".to_string()];
    assert_eq!(cleanup_temp_folder(&candidates, &[false]), CleanupStep::Probe("/b".to_string()));
    assert_eq!(cleanup_temp_folder(&candidates, &[false, false]), CleanupStep::Done);
    assert_eq!(cleanup_temp_folder(&[], &[]), CleanupStep::Done);
}

#[test]
fn suggested_names_cannot_leave_the_folder() {
    assert_eq!(destination_in("/d", "../../etc/passwd", &[]), "/d/passwd");
    assert_eq!(destination_in("/d", "/abs/olute.txt", &[]), "/d/olute.txt");
    assert_eq!(destination_in("/d", "..", &[]), "/d/download");
}

#[test]
fn temp_candidates_prefer_the_runtime_dir() {
    assert_eq!(
        temp_candidates_in(Some("/run/user/1000".to_string()), "/tmp"),
        vec!["/run/user/1000/openwhatsapp/tmp".to_string(), "/tmp/openwhatsapp/tmp".to_string()]
    );
    assert_eq!(
        temp_candidates_in(None, "/tmp"),
        vec!["/tmp/openwhatsapp/tmp".to_string()]
    );
}
