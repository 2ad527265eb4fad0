use openwhatsapp::accounts::{
    account_to_row, badge_text, initial_for_name, optional_path_from_db, optional_path_to_db,
    row_to_account, timestamp_from_seconds, Account, AccountError, AccountRow, RowError,
};

#[test]
fn initial_uses_first_display_name_character() {
    assert_eq!(initial_for_name(" work"), "W");
    assert_eq!(initial_for_name(""), "?");
}

#[test]
fn grid_badge_text_caps_large_counts() {
    assert_eq!(badge_text(0), "");
    assert_eq!(badge_text(9), "9");
    assert_eq!(badge_text(1_000), "999+");
}

#[test]
fn badge_text_shows_the_cap_itself() {
    assert_eq!(badge_text(999), "999");
    assert_eq!(badge_text(u32::MAX), "999+");
}

#[test]
fn initial_is_uppercased_beyond_ascii() {
    assert_eq!(initial_for_name("  émile"), "É");
    assert_eq!(initial_for_name("ß"), "SS");
    assert_eq!(initial_for_name(" \t "), "?");
}

#[test]
fn new_account_gets_uuid_and_timestamp() {
    let account = Account::new("Work").unwrap();

    assert_eq!(account.display_name, "Work");
    assert!(account.created_at > 0);
}

#[test]
fn new_accounts_get_distinct_ids() {
    let first = Account::new("A").unwrap();
    let second = Account::new("B").unwrap();

    assert_ne!(first.id, second.id);
    assert_eq!(first.avatar_path, None);
    assert!(!first.customization_override);
}

#[test]
fn timestamps_before_epoch_or_too_large_are_refused() {
    assert_eq!(timestamp_from_seconds(None), Err(AccountError::ClockBeforeEpoch));
    assert_eq!(timestamp_from_seconds(Some(42)), Ok(42));
    assert_eq!(
        timestamp_from_seconds(Some(u64::MAX)),
        Err(AccountError::TimestampOverflow)
    );
}

#[test]
fn optional_paths_round_trip_through_db_text() {
    let path = Some("/tmp/avatar.png".to_string());

    assert_eq!(
        optional_path_from_db(optional_path_to_db(&path)),
        Some("/tmp/avatar.png".to_string())
    );
}

#[test]
fn account_row_round_trips() {
    let account = Account {
        id: 0x0123_4567_89ab_cdef_0123_4567_89ab_cdef,
        display_name: "Personal".to_string(),
        avatar_path: Some("/tmp/a.png".to_string()),
        created_at: 1_700_000_000,
        custom_download_dir: None,
        customization_override: true,
    };
    let row = account_to_row(&account);

    assert_eq!(row.id, "01234567-89ab-cdef-0123-456789abcdef");
    assert_eq!(row_to_account(&row), Ok(account));
}

#[test]
fn account_row_with_bad_id_reports_the_column() {
    let row = AccountRow {
        id: "not-a-uuid".to_string(),
        display_name: "Work".to_string(),
        avatar_path: None,
        created_at: 0,
        custom_download_dir: None,
        customization_override: false,
    };

    assert_eq!(row_to_account(&row), Err(RowError { column: 0 }));
}

#[test]
fn account_takes_the_clock_reading() {
    let account = Account::with_clock_reading("Work", 9, Some(1_700_000_000)).unwrap();
    assert_eq!(account.id, 9);
    assert_eq!(account.display_name, "Work");
    assert_eq!(account.created_at, 1_700_000_000);
    assert_eq!(account.avatar_path, None);
    assert_eq!(account.custom_download_dir, None);
    assert!(!account.customization_override);
    assert_eq!(
        Account::with_clock_reading("Work", 9, None),
        Err(AccountError::ClockBeforeEpoch)
    );
    assert_eq!(
        Account::with_clock_reading("Work", 9, Some(u64::MAX)),
        Err(AccountError::TimestampOverflow)
    );
}
