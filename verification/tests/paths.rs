use openwhatsapp::ids::id_text;
use openwhatsapp::paths::{
    account_css_dir_in, account_js_dir_in, config_dir_in, config_file_in, data_dir_in,
    database_file_in, extensions_dir_in, global_css_dir_in, global_js_dir_in, runtime_dir_in,
    temp_download_dir_in, PathError,
    account_css_dir, account_js_dir, account_web_cache_dir, account_web_cache_dir_in,
    account_web_data_dir, account_web_data_dir_in, config_dir,
    config_file, data_dir, database_file, extension, extensions_dir, file_name, file_stem,
    global_css_dir, global_js_dir, join_path, parent, runtime_dir, temp_download_dir,
};

#[test]
fn config_file_uses_toml_extension() {
    assert_eq!(file_name(&config_file().unwrap()), Some("config.toml".to_string()));
}

#[test]
fn database_file_uses_sqlite_extension() {
    assert_eq!(
        file_name(&database_file().unwrap()),
        Some("openwhatsapp.sqlite3".to_string())
    );
}

#[test]
fn app_paths_end_with_openwhatsapp() {
    assert_eq!(file_name(&config_dir().unwrap()), Some("openwhatsapp".to_string()));
    assert_eq!(file_name(&data_dir().unwrap()), Some("openwhatsapp".to_string()));
    assert_eq!(file_name(&runtime_dir("/tmp")), Some("openwhatsapp".to_string()));
}

#[test]
fn temp_download_dir_lives_below_runtime_dir() {
    assert!(temp_download_dir("/tmp").starts_with(&runtime_dir("/tmp")));
}

#[test]
fn account_web_dirs_include_account_id() {
    let account_id: u128 = 0x6f1c_2b9a_0d4e_4c55_9a11_23bc_de45_f678;
    let account_id_text = id_text(account_id);

    assert!(account_web_data_dir(account_id).unwrap().contains(&account_id_text));
    assert!(account_web_cache_dir(account_id).unwrap().contains(&account_id_text));
}

#[test]
fn customization_dirs_follow_expected_layout() {
    let account_id: u128 = 0x6f1c_2b9a_0d4e_4c55_9a11_23bc_de45_f678;
    let account_id_text = id_text(account_id);

    assert!(global_css_dir().unwrap().ends_with("customizations/global/css"));
    assert!(global_js_dir().unwrap().ends_with("customizations/global/js"));
    assert!(account_css_dir(account_id).unwrap().contains(&account_id_text));
    assert!(account_js_dir(account_id).unwrap().contains(&account_id_text));
    assert!(extensions_dir().unwrap().ends_with("customizations/extensions"));
}

#[test]
fn join_follows_pathbuf_rules() {
    assert_eq!(join_path("/a", "b"), "/a/b");
    assert_eq!(join_path("/a/", "b"), "/a/b");
    assert_eq!(join_path("/a", "/b"), "/b");
    assert_eq!(join_path("", "b"), "b");
}

#[test]
fn file_name_stem_and_extension_follow_path_rules() {
    assert_eq!(file_name("/tmp/a.tar.gz"), Some("a.tar.gz".to_string()));
    assert_eq!(file_name("/tmp/"), Some("tmp".to_string()));
    assert_eq!(file_name("/tmp/.."), None);
    assert_eq!(file_name("/"), None);
    assert_eq!(file_stem("/tmp/a.tar.gz"), Some("a.tar".to_string()));
    assert_eq!(file_stem("/tmp/.hidden"), Some(".hidden".to_string()));
    assert_eq!(extension("/tmp/a.tar.gz"), Some("gz".to_string()));
    assert_eq!(extension("/tmp/.hidden"), None);
    assert_eq!(parent("/tmp/icons/a.png"), Some("/tmp/icons".to_string()));
    assert_eq!(parent("/"), None);
}

#[test]
fn accounts_get_separate_web_storage() {
    assert_ne!(account_web_data_dir(1).unwrap(), account_web_data_dir(2).unwrap());
    assert_ne!(account_web_cache_dir(1).unwrap(), account_web_cache_dir(2).unwrap());
    assert!(account_web_data_dir(1).unwrap().ends_with("/web/00000000-0000-0000-0000-000000000001/data"));
}

#[test]
fn account_web_dirs_below_a_data_dir() {
    assert_eq!(
        account_web_data_dir_in("/d", 1),
        "/d/web/00000000-0000-0000-0000-000000000001/data"
    );
    assert_eq!(
        account_web_cache_dir_in("/d/", 1),
        "/d/web/00000000-0000-0000-0000-000000000001/cache"
    );
    assert_ne!(account_web_data_dir_in("/d", 1), account_web_data_dir_in("/d", 2));
    assert_ne!(account_web_data_dir_in("/d", 1), account_web_cache_dir_in("/d", 1));
}

#[test]
fn config_and_data_dirs_follow_the_xdg_dirs() {
    let config = config_dir_in(Some("/home/u/.config".to_string())).unwrap();
    assert_eq!(config, "/home/u/.config/openwhatsapp");
    assert_eq!(config_file_in(&config), "/home/u/.config/openwhatsapp/config.toml");
    assert_eq!(config_dir_in(None), Err(PathError::NoConfigDir));

    let data = data_dir_in(Some("/home/u/.local/share".to_string())).unwrap();
    assert_eq!(data, "/home/u/.local/share/openwhatsapp");
    assert_eq!(
        database_file_in(&data),
        "/home/u/.local/share/openwhatsapp/openwhatsapp.sqlite3"
    );
    assert_eq!(data_dir_in(None), Err(PathError::NoDataDir));
}

#[test]
fn customization_dirs_below_a_data_dir() {
    let data = "/d/openwhatsapp";
    assert_eq!(global_css_dir_in(data), "/d/openwhatsapp/customizations/global/css");
    assert_eq!(global_js_dir_in(data), "/d/openwhatsapp/customizations/global/js");
    assert_eq!(
        account_css_dir_in(data, 1),
        "/d/openwhatsapp/customizations/accounts/00000000-0000-0000-0000-000000000001/css"
    );
    assert_eq!(
        account_js_dir_in(data, 1),
        "/d/openwhatsapp/customizations/accounts/00000000-0000-0000-0000-000000000001/js"
    );
    assert_eq!(extensions_dir_in(data), "/d/openwhatsapp/customizations/extensions");
}

#[test]
fn runtime_dir_prefers_the_xdg_runtime_dir() {
    assert_eq!(runtime_dir_in(Some("/run/user/1000".to_string()), "/tmp"), "/run/user/1000/openwhatsapp");
    assert_eq!(runtime_dir_in(None, "/tmp"), "/tmp/openwhatsapp");
    assert_eq!(
        temp_download_dir_in(Some("/run/user/1000".to_string()), "/tmp"),
        "/run/user/1000/openwhatsapp/tmp"
    );
    assert_eq!(temp_download_dir_in(None, "/tmp"), "/tmp/openwhatsapp/tmp");
}
