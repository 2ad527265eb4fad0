use openwhatsapp::events::AppEvent;
use openwhatsapp::ids::id_text;
use openwhatsapp::injection::chromium_compatibility_script;
use openwhatsapp::webview::{
    account_child_name, allows_permission_request, is_auto_granted_permission_query,
    normalize_notification_title, notification_click_events, notification_event,
    notification_title, path_to_string, stack_command, switch_relative, unread_count_from_title,
    unread_event, wrap_index, PermissionRequestKind, StackCommand, GUEST_WEBVIEW_NAME,
    WHATSAPP_USER_AGENT,
};

#[test]
fn compatibility_script_targets_chromium() {
    assert!(chromium_compatibility_script().contains("Google Chrome"));
}

#[test]
fn path_to_string_preserves_path_text() {
    assert_eq!(path_to_string("/tmp/openwhatsapp"), "/tmp/openwhatsapp");
}

#[test]
fn whatsapp_user_agent_spoofs_chrome() {
    assert!(WHATSAPP_USER_AGENT.contains("Chrome/"));
    assert!(WHATSAPP_USER_AGENT.contains("Safari/"));
}

#[test]
fn unread_count_parses_whatsapp_title_prefix() {
    assert_eq!(unread_count_from_title("(3) WhatsApp"), Some(3));
    assert_eq!(unread_count_from_title("WhatsApp"), None);
}

#[test]
fn unread_count_edge_cases() {
    assert_eq!(unread_count_from_title("  (12) WhatsApp"), Some(12));
    assert_eq!(unread_count_from_title("(+4) WhatsApp"), Some(4));
    assert_eq!(unread_count_from_title("() WhatsApp"), None);
    assert_eq!(unread_count_from_title("(3 WhatsApp"), None);
    assert_eq!(unread_count_from_title("(99999999999) WhatsApp"), None);
}

#[test]
fn guest_webview_name_is_stable() {
    assert_eq!(GUEST_WEBVIEW_NAME, "guest");
}

#[test]
fn relative_index_wraps_around() {
    assert_eq!(wrap_index(0, -1, 3), 2);
    assert_eq!(wrap_index(2, 1, 3), 0);
}

#[test]
fn relative_index_wraps_large_offsets() {
    assert_eq!(wrap_index(1, -7, 3), 0);
    assert_eq!(wrap_index(1, 7, 3), 2);
    assert_eq!(wrap_index(0, 0, 1), 0);
}

#[test]
fn notification_titles_are_trimmed_or_defaulted() {
    assert_eq!(normalize_notification_title("  Alice  "), "Alice");
    assert_eq!(normalize_notification_title("   "), "WhatsApp");
    assert_eq!(notification_title(None), "WhatsApp");
}

#[test]
fn permission_queries_granted_without_asking() {
    for name in ["camera", "microphone", "speaker-selection", "display-capture", "notifications"] {
        assert!(is_auto_granted_permission_query(name));
    }
    assert!(!is_auto_granted_permission_query("geolocation"));
    assert!(allows_permission_request(PermissionRequestKind::UserMedia));
    assert!(!allows_permission_request(PermissionRequestKind::Other));
}

fn names() -> Vec<String> {
    vec![id_text(1), id_text(2), id_text(3)]
}

#[test]
fn switching_moves_between_account_webviews() {
    let names = names();

    assert_eq!(switch_relative(&names, Some(&id_text(3)), 1), Some(0));
    assert_eq!(switch_relative(&names, Some(&id_text(1)), -1), Some(2));
    assert_eq!(switch_relative(&names, Some("guest"), 1), Some(1));
    assert_eq!(switch_relative(&names, None, -1), Some(2));
    assert_eq!(switch_relative(&[], None, 1), None);
}

#[test]
fn stack_answers_events() {
    let names = names();

    assert_eq!(
        stack_command(&AppEvent::AccountSwitched(2), &names, None),
        Some(StackCommand::Show(id_text(2)))
    );
    assert_eq!(stack_command(&AppEvent::AccountSwitched(9), &names, None), None);
    assert_eq!(account_child_name(&names, 3), Some(id_text(3)));
    assert_eq!(
        stack_command(&AppEvent::NextAccount, &names, Some(&id_text(2))),
        Some(StackCommand::Show(id_text(3)))
    );
    assert_eq!(
        stack_command(&AppEvent::PreviousAccount, &names, Some(&id_text(1))),
        Some(StackCommand::Show(id_text(3)))
    );
    assert_eq!(stack_command(&AppEvent::NextAccount, &[], None), None);
    assert_eq!(stack_command(&AppEvent::ReloadActiveWebView, &names, None), Some(StackCommand::Reload));
    assert_eq!(stack_command(&AppEvent::OpenInspector, &names, None), Some(StackCommand::OpenInspector));
    assert_eq!(stack_command(&AppEvent::Quit, &names, None), None);
}

#[test]
fn webview_events() {
    assert_eq!(
        unread_event(5, "(2) WhatsApp"),
        Some(AppEvent::UnreadCountChanged { account_id: 5, count: 2 })
    );
    assert_eq!(unread_event(5, "WhatsApp"), None);
    assert_eq!(
        notification_event(5, Some(" Bob "), None),
        AppEvent::NotificationReceived {
            account_id: 5,
            title: "Bob".to_string(),
            body: String::new(),
        }
    );
    assert_eq!(
        notification_click_events(5),
        vec![AppEvent::WindowShow, AppEvent::AccountSwitched(5)]
    );
}
