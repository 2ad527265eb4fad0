use openwhatsapp::accounts::Account;
use openwhatsapp::events::AppEvent;
use openwhatsapp::tray::{
    account_menu_entries, empty_accounts_label, icon_name, icon_theme_path, badge_text,
    indicator_state, item_method_reply, menu_event, menu_group_properties, menu_item_properties,
    menu_item_property, menu_label, menu_layout, menu_method, menu_property, pixels_to_argb,
    split_icon_file, tooltip_body, tray_service_name, IndicatorStatus, ItemMethodReply,
    MenuMethod, PropertyValue, StatusNotifierState, TrayIcon, UnreadCounts, DEFAULT_ICON_NAME,
    MENU_HIDE_ID, MENU_QUIT_ID, MENU_SHOW_ID, TRAY_MENU_REVISION, UNREAD_ICON_NAME,
};

#[test]
fn custom_icon_path_splits_theme_dir_and_name() {
    let icon = TrayIcon::new(Some("/tmp/icons/openwhatsapp.png"));

    assert_eq!(icon.icon_name, "openwhatsapp");
    assert_eq!(icon.theme_path, Some("/tmp/icons".to_string()));
}

#[test]
fn no_custom_icon_uses_the_theme_icon() {
    let icon = TrayIcon::new(None);

    assert_eq!(icon.icon_name, DEFAULT_ICON_NAME);
    assert_eq!(icon.theme_path, None);
    assert_eq!(TrayIcon::new(Some("/")).theme_path, None);
    assert_eq!(split_icon_file("/"), None);
}

#[test]
fn icons_badge_text_caps_large_counts() {
    assert_eq!(badge_text(0), "");
    assert_eq!(badge_text(7), "7");
    assert_eq!(badge_text(1_000), "999+");
}

#[test]
fn indicator_shows_attention_when_unread() {
    let idle = indicator_state(0);
    assert_eq!(idle.icon_name, DEFAULT_ICON_NAME);
    assert_eq!(idle.label, "");
    assert_eq!(idle.status, IndicatorStatus::Active);

    let busy = indicator_state(12);
    assert_eq!(busy.icon_name, UNREAD_ICON_NAME);
    assert_eq!(busy.icon_description, "OpenWhatsapp unread");
    assert_eq!(busy.label, "12");
    assert_eq!(busy.status, IndicatorStatus::Attention);
}

#[test]
fn empty_accounts_menu_label_is_stable() {
    assert_eq!(empty_accounts_label(), "No accounts");
}

#[test]
fn accounts_menu_lists_accounts_or_a_disabled_placeholder() {
    let empty = account_menu_entries(&[]);
    assert_eq!(empty.len(), 1);
    assert_eq!(empty[0].label, "No accounts");
    assert!(!empty[0].sensitive);
    assert_eq!(empty[0].event, None);

    let account = Account {
        id: 9,
        display_name: "Work".to_string(),
        avatar_path: None,
        created_at: 0,
        custom_download_dir: None,
        customization_override: false,
    };
    let entries = account_menu_entries(&[account]);
    assert_eq!(entries.len(), 1);
    assert_eq!(entries[0].label, "Work");
    assert!(entries[0].sensitive);
    assert_eq!(entries[0].event, Some(AppEvent::AccountSwitched(9)));
}

#[test]
fn tray_service_name_uses_valid_prefix() {
    assert!(tray_service_name(4242).starts_with("org.kde.StatusNotifierItem."));
    assert!(!tray_service_name(4242).contains('-'));
    assert_eq!(tray_service_name(4242), "org.kde.StatusNotifierItem.openwhatsapp_4242_1");
}

#[test]
fn tooltip_mentions_unread_count() {
    assert_eq!(tooltip_body(0), "WhatsApp Web");
    assert_eq!(tooltip_body(7), "7 unread");
}

#[test]
fn status_notifier_properties() {
    let mut state = StatusNotifierState::new(Some("/icons/custom.png"));
    assert_eq!(state.icon_name, "custom");
    assert_eq!(state.icon_theme_path, "/icons");
    assert_eq!(state.status(), "Active");
    assert_eq!(state.property("Category"), PropertyValue::Text("Communications".to_string()));
    assert_eq!(state.property("IconName"), PropertyValue::Text("custom".to_string()));
    assert_eq!(state.property("WindowId"), PropertyValue::U32(0));
    assert_eq!(state.property("ItemIsMenu"), PropertyValue::Bool(false));
    assert_eq!(state.property("Menu"), PropertyValue::ObjectPath("/Menu".to_string()));
    assert_eq!(state.property("AttentionIconPixmap"), PropertyValue::IconPixmaps);
    assert_eq!(state.property("Nope"), PropertyValue::Text(String::new()));

    state.unread_count = 3;
    assert_eq!(state.property("Status"), PropertyValue::Text("NeedsAttention".to_string()));
    assert_eq!(
        state.property("ToolTip"),
        PropertyValue::ToolTip {
            title: "OpenWhatsapp".to_string(),
            body: "3 unread".to_string(),
        }
    );
    assert_eq!(state.current_icon_name(), "custom");
}

#[test]
fn custom_icon_without_stem_publishes_empty_names() {
    assert_eq!(icon_name(None), "");
    assert_eq!(icon_theme_path(None), "");
    assert_eq!(icon_name(Some("/")), "");
}

#[test]
fn item_methods() {
    assert_eq!(item_method_reply("Activate"), ItemMethodReply::ShowWindow);
    assert_eq!(item_method_reply("SecondaryActivate"), ItemMethodReply::ShowWindow);
    assert_eq!(item_method_reply("Scroll"), ItemMethodReply::Nothing);
    assert_eq!(item_method_reply("Other"), ItemMethodReply::UnknownMethod);
}

#[test]
fn menu_methods_and_events() {
    assert_eq!(menu_method("GetLayout"), MenuMethod::GetLayout);
    assert_eq!(menu_method("Event"), MenuMethod::Event);
    assert_eq!(menu_method("AboutToShow"), MenuMethod::AboutToShow);
    assert_eq!(menu_method("Other"), MenuMethod::Unknown);
    assert_eq!(menu_event(MENU_SHOW_ID, "clicked"), Some(AppEvent::WindowShow));
    assert_eq!(menu_event(MENU_HIDE_ID, "clicked"), Some(AppEvent::WindowHide));
    assert_eq!(menu_event(MENU_QUIT_ID, "clicked"), Some(AppEvent::Quit));
    assert_eq!(menu_event(MENU_QUIT_ID, "hovered"), None);
    assert_eq!(menu_event(99, "clicked"), None);
    assert_eq!(menu_label(MENU_HIDE_ID), "Hide");
    assert_eq!(menu_label(0), "");
}

#[test]
fn menu_item_properties_are_in_key_order() {
    let keys: Vec<String> = menu_item_properties(1, "Show").into_iter().map(|(k, _)| k).collect();
    assert_eq!(keys, vec!["enabled", "label", "type", "visible"]);
    let root: Vec<String> = menu_item_properties(0, "").into_iter().map(|(k, _)| k).collect();
    assert_eq!(root, vec!["children-display", "enabled", "type", "visible"]);
    assert_eq!(menu_item_property(MENU_QUIT_ID, "label"), PropertyValue::Text("Quit".to_string()));
    assert_eq!(menu_item_property(MENU_QUIT_ID, "enabled"), PropertyValue::Bool(true));
    assert_eq!(menu_item_property(MENU_QUIT_ID, "icon"), PropertyValue::Text(String::new()));
}

#[test]
fn menu_layout_has_three_items() {
    let layout = menu_layout();
    assert_eq!(layout.revision, TRAY_MENU_REVISION);
    assert_eq!(layout.root.id, 0);
    let ids: Vec<i32> = layout.children.iter().map(|entry| entry.id).collect();
    assert_eq!(ids, vec![MENU_SHOW_ID, MENU_HIDE_ID, MENU_QUIT_ID]);
    assert_eq!(menu_group_properties(), layout.children);
    assert_eq!(menu_property("Version"), PropertyValue::U32(3));
    assert_eq!(menu_property("TextDirection"), PropertyValue::Text("ltr".to_string()));
    assert_eq!(menu_property("IconThemePath"), PropertyValue::TextList(Vec::new()));
}

#[test]
fn unread_counts_replace_an_accounts_previous_count() {
    let mut counts = UnreadCounts::new();

    assert_eq!(counts.record(1, 3), 3);
    assert_eq!(counts.record(2, 4), 7);
    assert_eq!(counts.record(1, 0), 4);
    assert_eq!(counts.record(2, 10), 10);
}

#[test]
fn pixels_convert_to_argb() {
    let rgb = [1, 2, 3, 4, 5, 6, 0, 0];
    assert_eq!(
        pixels_to_argb(2, 1, 3, 8, &rgb),
        Some((2, 1, vec![0xff, 1, 2, 3, 0xff, 4, 5, 6]))
    );

    let rgba = [1, 2, 3, 4, 5, 6, 7, 8];
    assert_eq!(
        pixels_to_argb(1, 2, 4, 4, &rgba),
        Some((1, 2, vec![4, 1, 2, 3, 8, 5, 6, 7]))
    );
}

#[test]
fn pixel_conversion_refuses_bad_layouts() {
    let data = [0u8; 8];

    assert_eq!(pixels_to_argb(2, 1, 2, 8, &data), None);
    assert_eq!(pixels_to_argb(-1, 1, 3, 8, &data), None);
    assert_eq!(pixels_to_argb(3, 1, 3, 9, &data), None);
    assert_eq!(pixels_to_argb(0, 5, 4, 0, &data), Some((0, 5, Vec::new())));
}

#[test]
fn unread_totals_that_would_overflow_are_refused() {
    let mut counts = UnreadCounts::new();
    assert_eq!(counts.record(1, u32::MAX - 1), u32::MAX - 1);

    assert!(counts.can_record(2, 1));
    assert!(!counts.can_record(2, 2));
    assert!(counts.can_record(1, u32::MAX));
}
