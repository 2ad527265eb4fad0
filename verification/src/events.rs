//! Application events passed between the window, tray, shortcuts and webviews.

use vstd::prelude::*;

use crate::config::Theme;

verus! {

/// Cross-module application event.
#[derive(Clone, Debug, PartialEq)]
#[non_exhaustive]
#[allow(inconsistent_fields)]
pub enum AppEvent {
    /// App bootstrap finished.
    AppReady,
    /// Show main window.
    WindowShow,
    /// Hide main window.
    WindowHide,
    /// Fullscreen state changed.
    FullscreenToggled(bool),
    /// Account was added.
    AccountAdded(u128),
    /// Account was removed.
    AccountRemoved(u128),
    /// Active account changed.
    AccountSwitched(u128),
    /// Account unread count changed.
    UnreadCountChanged {
        /// Account identifier.
        account_id: u128,
        /// Unread message count.
        count: u32,
    },
    /// Desktop notification was received.
    NotificationReceived {
        /// Account identifier.
        account_id: u128,
        /// Notification title.
        title: String,
        /// Notification body.
        body: String,
    },
    /// Customizations were reloaded.
    CustomizationReloaded {
        /// Optional account identifier; `None` means global.
        account_id: Option<u128>,
    },
    /// Download started.
    DownloadStarted {
        /// Account identifier.
        account_id: u128,
        /// Download destination path.
        path: String,
    },
    /// Theme preference changed.
    ThemeChanged(Theme),
    /// Config was saved.
    ConfigSaved,
    /// Settings dialog should open.
    SettingsOpen,
    /// New account flow was requested.
    NewAccountRequested,
    /// Switch to next account.
    NextAccount,
    /// Switch to previous account.
    PreviousAccount,
    /// Reload active webview.
    ReloadActiveWebView,
    /// Open active WebKit inspector.
    OpenInspector,
    /// App should quit.
    Quit,
}

} // verus!
