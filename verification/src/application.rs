//! Application shell rules: identity, what the main window does for each application
//! event, the window geometry it saves, and the WebKit environment it sets up on Wayland.

use vstd::prelude::*;

use crate::config::AppConfig;
use crate::events::AppEvent;
use crate::text::{chars_of, first_at, find_first};

verus! {

/// Application identifier registered with the desktop.
pub const APPLICATION_ID: &'static str = "io.github.openwhatsapp.OpenWhatsapp";

/// Title of the main window.
pub const APP_TITLE: &'static str = "OpenWhatsapp";

/// Icon name of the application.
pub const APP_ICON_NAME: &'static str = "openwhatsapp";

/// Folder added to the icon theme's search path.
pub const APP_ICON_DIR: &'static str = "assets/icons";

/// Capacity of the application event channel.
pub const DEFAULT_EVENT_CAPACITY: usize = 256;

/// The application identifier.
pub fn application_id() -> (r: &'static str)
    ensures
        r@ == APPLICATION_ID@,
{
    APPLICATION_ID
}

/// What the main window does in answer to an application event.
#[derive(Clone, Debug, PartialEq, Eq)]
pub enum AppAction {
    /// Show and raise the window.
    PresentWindow,
    /// Hide the window.
    HideWindow,
    /// Open the settings dialog.
    OpenSettings,
    /// Note that a new account was requested.
    NoteNewAccountRequest,
    /// Send a desktop notification.
    SendNotification { account_id: u128, title: String, body: String },
    /// Quit the application.
    Quit,
}

/// The main window's answer to an application event; other events are left to the parts
/// that handle them.
pub fn app_action(event: &AppEvent) -> (r: Option<AppAction>)
    ensures
        match *event {
            AppEvent::WindowShow => r == Some(AppAction::PresentWindow),
            AppEvent::WindowHide => r == Some(AppAction::HideWindow),
            AppEvent::SettingsOpen => r == Some(AppAction::OpenSettings),
            AppEvent::NewAccountRequested => r == Some(AppAction::NoteNewAccountRequest),
            AppEvent::NotificationReceived { account_id, title, body } => r matches Some(
                AppAction::SendNotification { account_id: a, title: t, body: b },
            ) && a == account_id && t@ == title@ && b@ == body@,
            AppEvent::Quit => r == Some(AppAction::Quit),
            _ => r is None,
        },
{
    match event {
        AppEvent::WindowShow => Some(AppAction::PresentWindow),
        AppEvent::WindowHide => Some(AppAction::HideWindow),
        AppEvent::SettingsOpen => Some(AppAction::OpenSettings),
        AppEvent::NewAccountRequested => Some(AppAction::NoteNewAccountRequest),
        AppEvent::NotificationReceived { account_id, title, body } => Some(
            AppAction::SendNotification {
                account_id: *account_id,
                title: title.clone(),
                body: body.clone(),
            },
        ),
        AppEvent::Quit => Some(AppAction::Quit),
        _ => None,
    }
}

/// Saves the window's geometry when it closes: a positive width or height replaces the one
/// saved, and the maximized state is kept; nothing else changes.
pub fn capture_geometry(width: i32, height: i32, maximized: bool, config: &mut AppConfig)
    ensures
        final(config).window.width == if width > 0 {
            width
        } else {
            old(config).window.width
        },
        final(config).window.height == if height > 0 {
            height
        } else {
            old(config).window.height
        },
        final(config).window.maximized == maximized,
        final(config).window.x == old(config).window.x,
        final(config).window.y == old(config).window.y,
        final(config).version == old(config).version,
        final(config).appearance == old(config).appearance,
        final(config).usability == old(config).usability,
        final(config).spellcheck == old(config).spellcheck,
        final(config).downloads == old(config).downloads,
        final(config).performance == old(config).performance,
{
    if width > 0 {
        config.window.width = width;
    }
    if height > 0 {
        config.window.height = height;
    }
    config.window.maximized = maximized;
}

/// A character with ASCII capitals made small.
pub open spec fn lower_ascii(c: char) -> char {
    if 'A' <= c <= 'Z' {
        ((c as u32) + 32) as char
    } else {
        c
    }
}

/// Text with ASCII capitals made small.
pub open spec fn lower_ascii_text(s: Seq<char>) -> Seq<char> {
    s.map_values(|c: char| lower_ascii(c))
}

/// Whether this is a Hyprland session: Hyprland's instance signature is set, or the
/// current desktop's name contains `hyprland` in any ASCII case.
pub open spec fn hyprland_session(signature_set: bool, current_desktop: Option<Seq<char>>) -> bool {
    signature_set || match current_desktop {
        Some(d) => first_at(lower_ascii_text(d), "hyprland"@, 0) is Some,
        None => false,
    }
}

/// Whether this is a Hyprland session, from `HYPRLAND_INSTANCE_SIGNATURE` being set and
/// the value of `XDG_CURRENT_DESKTOP`.
pub fn is_hyprland_session(signature_set: bool, current_desktop: Option<&str>) -> (r: bool)
    ensures
        r == hyprland_session(signature_set, crate::text::opt_str_view(current_desktop)),
{
    if signature_set {
        return true;
    }
    match current_desktop {
        None => false,
        Some(d) => {
            let chars = chars_of(d);
            let mut lower: Vec<char> = Vec::new();
            let mut i: usize = 0;
            while i < chars.len()
                invariant
                    0 <= i <= chars@.len(),
                    lower@ == lower_ascii_text(chars@.take(i as int)),
                decreases chars.len() - i,
            {
                let c = chars[i];
                let l = if 'A' <= c && c <= 'Z' {
                    ((c as u8) + 32) as char
                } else {
                    c
                };
                lower.push(l);
                assert(lower@ =~= lower_ascii_text(chars@.take(i + 1)));
                i = i + 1;
            }
            assert(chars@.take(chars@.len() as int) =~= chars@);
            let pattern = chars_of("hyprland");
            find_first(&lower, &pattern, 0).is_some()
        },
    }
}

/// An environment variable to set, and its value.
#[derive(Clone, Copy, Debug, PartialEq, Eq)]
pub struct EnvSetting {
    /// Variable name.
    pub name: &'static str,
    /// Value.
    pub value: &'static str,
}

/// The WebKit environment to set before GTK starts: on Wayland, compositing off, GStreamer
/// GL textures and PipeWire preferred; on Hyprland, the DMA-BUF renderer off unless the
/// user already chose.
pub fn webkit_environment(wayland: bool, hyprland: bool, dmabuf_renderer_set: bool) -> (r: Vec<
    EnvSetting,
>)
    ensures
        r@.len() == (if wayland {
            3int
        } else {
            0int
        }) + (if hyprland && !dmabuf_renderer_set {
            1int
        } else {
            0int
        }),
        wayland ==> r@[0].name@ == "WEBKIT_DISABLE_COMPOSITING_MODE"@ && r@[0].value@ == "1"@
            && r@[1].name@ == "WEBKIT_USE_GSTREAMER_GL_TEXTURES"@ && r@[1].value@ == "1"@
            && r@[2].name@ == "GST_PLUGIN_FEATURE_RANK"@ && r@[2].value@ == "pipewire:512"@,
        hyprland && !dmabuf_renderer_set ==> r@.last().name@ == "WEBKIT_DISABLE_DMABUF_RENDERER"@
            && r@.last().value@ == "1"@,
{
    let mut settings: Vec<EnvSetting> = Vec::new();
    if wayland {
        settings.push(EnvSetting { name: "WEBKIT_DISABLE_COMPOSITING_MODE", value: "1" });
        settings.push(EnvSetting { name: "WEBKIT_USE_GSTREAMER_GL_TEXTURES", value: "1" });
        settings.push(EnvSetting { name: "GST_PLUGIN_FEATURE_RANK", value: "pipewire:512" });
    }
    if hyprland && !dmabuf_renderer_set {
        settings.push(EnvSetting { name: "WEBKIT_DISABLE_DMABUF_RENDERER", value: "1" });
    }
    settings
}

/// How the main window is put together from the configuration.
#[derive(Clone, Debug, PartialEq, Eq)]
pub struct WindowPlan {
    /// Initial width.
    pub width: i32,
    /// Initial height.
    pub height: i32,
    /// Whether the window starts maximized.
    pub maximized: bool,
    /// Whether client-side decorations are used.
    pub custom_decorations: bool,
    /// Whether the account grid is shown beside the webviews.
    pub show_account_grid: bool,
    /// Whether the system theme is followed.
    pub watch_system_theme: bool,
    /// Whether the tray is started.
    pub start_tray: bool,
    /// The custom tray icon file, if any.
    pub tray_icon_path: Option<String>,
}

/// How the main window is put together: the saved geometry, the decorations setting, the
/// account grid when there are accounts, the theme watcher when the theme follows the
/// system, and the tray when it is enabled.
pub fn window_plan(config: &AppConfig, account_count: usize) -> (r: WindowPlan)
    ensures
        r.width == config.window.width,
        r.height == config.window.height,
        r.maximized == config.window.maximized,
        r.custom_decorations == config.appearance.custom_decorations,
        r.show_account_grid == (account_count > 0),
        r.watch_system_theme == (config.appearance.theme == crate::config::Theme::Auto),
        r.start_tray == config.usability.tray_enabled,
        r.tray_icon_path.deep_view() == config.usability.tray_icon_path.deep_view(),
{
    let tray_icon_path = match &config.usability.tray_icon_path {
        Some(p) => Some(crate::text::string_of(&chars_of(p.as_str()))),
        None => None,
    };
    WindowPlan {
        width: config.window.width,
        height: config.window.height,
        maximized: config.window.maximized,
        custom_decorations: config.appearance.custom_decorations,
        show_account_grid: account_count > 0,
        watch_system_theme: crate::theme::watches_system_changes(&config.appearance.theme),
        start_tray: config.usability.tray_enabled,
        tray_icon_path,
    }
}

} // verus!
