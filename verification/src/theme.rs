//! Theme rules: the effective theme of a preference or of the system color scheme.

use vstd::prelude::*;

use crate::config::Theme;

verus! {

/// Portal color scheme value.
#[derive(Clone, Copy, Debug, PartialEq, Eq, Structural)]
pub enum SystemColorScheme {
    /// No system preference.
    NoPreference,
    /// System prefers dark UI.
    PreferDark,
    /// System prefers light UI.
    PreferLight,
}

/// The color scheme named by an `org.freedesktop.appearance` `color-scheme` value.
pub open spec fn scheme_of_value(value: u32) -> SystemColorScheme {
    if value == 1 {
        SystemColorScheme::PreferDark
    } else if value == 2 {
        SystemColorScheme::PreferLight
    } else {
        SystemColorScheme::NoPreference
    }
}

impl From<u32> for SystemColorScheme {
    fn from(value: u32) -> (r: Self)
        ensures
            r == scheme_of_value(value),
    {
        if value == 1 {
            SystemColorScheme::PreferDark
        } else if value == 2 {
            SystemColorScheme::PreferLight
        } else {
            SystemColorScheme::NoPreference
        }
    }
}

impl vstd::std_specs::convert::FromSpecImpl<u32> for SystemColorScheme {
    open spec fn obeys_from_spec() -> bool {
        true
    }

    open spec fn from_spec(v: u32) -> Self {
        scheme_of_value(v)
    }
}

/// The theme GTK is asked to render for a system color scheme.
pub open spec fn theme_of_scheme(scheme: SystemColorScheme) -> Theme {
    match scheme {
        SystemColorScheme::PreferDark => Theme::Dark,
        SystemColorScheme::PreferLight => Theme::Light,
        SystemColorScheme::NoPreference => Theme::Auto,
    }
}

/// Whether GTK's dark variant is requested for a theme preference.
pub fn prefer_dark_for(preference: &Theme) -> (r: bool)
    ensures
        r == (*preference == Theme::Dark),
{
    match preference {
        Theme::Dark => true,
        _ => false,
    }
}

/// The effective theme for a system color scheme.
pub fn theme_for_system_scheme(scheme: SystemColorScheme) -> (r: Theme)
    ensures
        r == theme_of_scheme(scheme),
{
    match scheme {
        SystemColorScheme::PreferDark => Theme::Dark,
        SystemColorScheme::PreferLight => Theme::Light,
        SystemColorScheme::NoPreference => Theme::Auto,
    }
}

/// What applying a system color scheme does: the effective theme, and whether GTK's dark
/// variant is requested for it.
#[derive(Clone, Copy, Debug, PartialEq, Eq, Structural)]
pub struct SchemeChange {
    /// The effective theme.
    pub theme: Theme,
    /// Whether the dark variant is requested.
    pub prefer_dark: bool,
}

/// The theme change a system color scheme calls for.
pub fn apply_system_scheme(scheme: SystemColorScheme) -> (r: SchemeChange)
    ensures
        r.theme == theme_of_scheme(scheme),
        r.prefer_dark == (scheme == SystemColorScheme::PreferDark),
{
    let theme = theme_for_system_scheme(scheme);
    let prefer_dark = prefer_dark_for(&theme);
    SchemeChange { theme, prefer_dark }
}

/// Whether the system theme is watched: only when the preference follows the system.
pub fn watches_system_changes(preference: &Theme) -> (r: bool)
    ensures
        r == (*preference == Theme::Auto),
{
    match preference {
        Theme::Auto => true,
        _ => false,
    }
}

/// The scheme a `SettingChanged` signal reports, if it is about the appearance color scheme.
pub open spec fn setting_changed_scheme(namespace: Option<&str>, key: Option<&str>, value: Option<
    u32,
>) -> Option<SystemColorScheme> {
    match (namespace, key, value) {
        (Some(n), Some(k), Some(v)) => if n@ == "org.freedesktop.appearance"@ && k@
            == "color-scheme"@ {
            Some(scheme_of_value(v))
        } else {
            None
        },
        _ => None,
    }
}

/// The color scheme carried by a portal `SettingChanged` signal, given its namespace, key
/// and `u32` value (each absent when the signal does not carry it in that form).
pub fn parse_setting_changed(namespace: Option<&str>, key: Option<&str>, value: Option<u32>) -> (r:
    Option<SystemColorScheme>)
    ensures
        r == setting_changed_scheme(namespace, key, value),
{
    let namespace = match namespace {
        Some(n) => n,
        None => return None,
    };
    let key = match key {
        Some(k) => k,
        None => return None,
    };
    if !crate::text::same_text(namespace, "org.freedesktop.appearance") || !crate::text::same_text(
        key,
        "color-scheme",
    ) {
        return None;
    }
    match value {
        Some(v) => Some(SystemColorScheme::from(v)),
        None => None,
    }
}

} // verus!
