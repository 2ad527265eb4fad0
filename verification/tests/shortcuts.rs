use openwhatsapp::accounts::Account;
use openwhatsapp::events::AppEvent;
use openwhatsapp::shortcuts::{
    account_id_for_digit, account_ids_by_index, is_tab_key, normalized_key_char, shortcut_action,
    KeyInput, ShortcutAction, KEY_F11, KEY_ISO_LEFT_TAB, KEY_TAB,
};

#[test]
fn digit_shortcut_maps_to_account_index() {
    let first: u128 = 0x1111;
    let second: u128 = 0x2222;
    let accounts = vec![first, second];

    assert_eq!(account_id_for_digit('1', &accounts), Some(first));
    assert_eq!(account_id_for_digit('2', &accounts), Some(second));
    assert_eq!(account_id_for_digit('9', &accounts), None);
}

#[test]
fn zero_and_letters_jump_nowhere() {
    let accounts = vec![1, 2, 3];

    assert_eq!(account_id_for_digit('0', &accounts), None);
    assert_eq!(account_id_for_digit('a', &accounts), None);
}

#[test]
fn action_turns_into_expected_event() {
    assert_eq!(ShortcutAction::Quit.into_event(), Some(AppEvent::Quit));
    assert_eq!(
        ShortcutAction::ReloadActiveWebView.into_event(),
        Some(AppEvent::ReloadActiveWebView)
    );
    assert_eq!(ShortcutAction::ToggleFullscreen.into_event(), None);
    assert_eq!(
        ShortcutAction::JumpToAccount(5).into_event(),
        Some(AppEvent::AccountSwitched(5))
    );
}

fn key(keyval: u32, unicode: Option<char>) -> KeyInput {
    KeyInput { keyval, unicode }
}

#[test]
fn shortcuts_follow_the_bindings() {
    let ids = vec![10, 20];
    let f11 = key(KEY_F11, None);
    let tab = key(KEY_TAB, Some('\t'));

    assert_eq!(shortcut_action(f11, false, false, &ids), Some(ShortcutAction::ToggleFullscreen));
    assert_eq!(shortcut_action(f11, true, false, &ids), None);
    assert_eq!(shortcut_action(tab, true, false, &ids), Some(ShortcutAction::NextAccount));
    assert_eq!(
        shortcut_action(key(KEY_ISO_LEFT_TAB, None), true, true, &ids),
        Some(ShortcutAction::PreviousAccount)
    );
    assert_eq!(shortcut_action(key(0x2c, Some(',')), true, false, &ids), Some(ShortcutAction::OpenSettings));
    assert_eq!(shortcut_action(key(0x4e, Some('N')), true, false, &ids), Some(ShortcutAction::NewAccount));
    assert_eq!(shortcut_action(key(0x71, Some('q')), true, false, &ids), Some(ShortcutAction::Quit));
    assert_eq!(shortcut_action(key(0x71, Some('q')), true, true, &ids), None);
    assert_eq!(
        shortcut_action(key(0x52, Some('R')), true, true, &ids),
        Some(ShortcutAction::ReloadActiveWebView)
    );
    assert_eq!(
        shortcut_action(key(0x49, Some('I')), true, true, &ids),
        Some(ShortcutAction::OpenInspector)
    );
    assert_eq!(
        shortcut_action(key(0x32, Some('2')), true, false, &ids),
        Some(ShortcutAction::JumpToAccount(20))
    );
    assert_eq!(shortcut_action(key(0x33, Some('3')), true, false, &ids), None);
    assert_eq!(shortcut_action(key(0x71, Some('q')), false, false, &ids), None);
}

#[test]
fn key_helpers() {
    assert!(is_tab_key(KEY_TAB));
    assert!(is_tab_key(KEY_ISO_LEFT_TAB));
    assert!(!is_tab_key(KEY_F11));
    assert_eq!(normalized_key_char(Some('Q')), Some('q'));
    assert_eq!(normalized_key_char(Some('É')), Some('É'));
    assert_eq!(normalized_key_char(None), None);
}

#[test]
fn account_ids_keep_account_order() {
    let make = |id: u128| Account {
        id,
        display_name: "x".to_string(),
        avatar_path: None,
        created_at: 0,
        custom_download_dir: None,
        customization_override: false,
    };

    assert_eq!(account_ids_by_index(&[make(3), make(1)]), vec![3, 1]);
}
