use openwhatsapp::application::{
    app_action, application_id, capture_geometry, is_hyprland_session, webkit_environment,
    window_plan, AppAction, APP_ICON_NAME,
};
use openwhatsapp::config::{AppConfig, Theme};
use openwhatsapp::events::AppEvent;

#[test]
fn application_id_is_reverse_dns() {
    assert!(application_id().contains('.'));
}

#[test]
fn app_icon_name_is_stable() {
    assert_eq!(APP_ICON_NAME, "openwhatsapp");
}

#[test]
fn app_event_clones_with_payload() {
    let event = AppEvent::UnreadCountChanged {
        account_id: 77,
        count: 3,
    };

    assert_eq!(event.clone(), event);
}

#[test]
fn main_window_answers_its_events() {
    assert_eq!(app_action(&AppEvent::WindowShow), Some(AppAction::PresentWindow));
    assert_eq!(app_action(&AppEvent::WindowHide), Some(AppAction::HideWindow));
    assert_eq!(app_action(&AppEvent::Quit), Some(AppAction::Quit));
    assert_eq!(
        app_action(&AppEvent::NotificationReceived {
            account_id: 1,
            title: "t".to_string(),
            body: "b".to_string(),
        }),
        Some(AppAction::SendNotification {
            account_id: 1,
            title: "t".to_string(),
            body: "b".to_string(),
        })
    );
    assert_eq!(app_action(&AppEvent::NextAccount), None);
}

#[test]
fn geometry_keeps_positive_sizes_only() {
    let mut config = AppConfig::default();
    capture_geometry(0, 600, true, &mut config);

    assert_eq!(config.window.width, 1280);
    assert_eq!(config.window.height, 600);
    assert!(config.window.maximized);
}

#[test]
fn hyprland_is_detected_from_signature_or_desktop() {
    assert!(is_hyprland_session(true, None));
    assert!(is_hyprland_session(false, Some("Hyprland")));
    assert!(is_hyprland_session(false, Some("KDE:HYPRLAND-x")));
    assert!(!is_hyprland_session(false, Some("GNOME")));
    assert!(!is_hyprland_session(false, None));
}

#[test]
fn webkit_environment_for_wayland_and_hyprland() {
    assert!(webkit_environment(false, false, false).is_empty());
    let wayland = webkit_environment(true, false, false);
    assert_eq!(wayland.len(), 3);
    assert_eq!(wayland[2].name, "GST_PLUGIN_FEATURE_RANK");
    assert_eq!(wayland[2].value, "pipewire:512");
    let hypr = webkit_environment(true, true, false);
    assert_eq!(hypr.len(), 4);
    assert_eq!(hypr[3].name, "WEBKIT_DISABLE_DMABUF_RENDERER");
    assert_eq!(webkit_environment(false, true, true).len(), 0);
}

#[test]
fn window_plan_follows_config() {
    let mut config = AppConfig::default();
    config.appearance.theme = Theme::Dark;
    let plan = window_plan(&config, 0);

    assert_eq!(plan.width, 1280);
    assert!(!plan.show_account_grid);
    assert!(!plan.watch_system_theme);
    assert!(plan.start_tray);
    assert!(window_plan(&AppConfig::default(), 2).show_account_grid);
}
