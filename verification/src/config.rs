//! The versioned application configuration and its migration.
//!
//! The on-disk TOML form is read and written outside the library; here are the values,
//! their defaults and the schema migration.

use vstd::prelude::*;

verus! {

/// Current config schema version.
pub const CURRENT_CONFIG_VERSION: u32 = 1;

/// Bit pattern of the `f64` value `1.0`, the default interface scale.
pub const DEFAULT_INTERFACE_SCALE_BITS: u64 = 0x3ff0_0000_0000_0000;

/// App theme preference.
#[derive(Clone, Copy, Debug, PartialEq, Eq, Structural)]
pub enum Theme {
    /// Follow system theme.
    Auto,
    /// Force light theme.
    Light,
    /// Force dark theme.
    Dark,
}

impl Default for Theme {
    fn default() -> (r: Self)
        ensures
            r == Theme::Auto,
    {
        Theme::Auto
    }
}

/// Window geometry configuration.
#[derive(Clone, Copy, Debug, PartialEq, Eq, Structural)]
pub struct WindowConfig {
    /// Window width in physical pixels.
    pub width: i32,
    /// Window height in physical pixels.
    pub height: i32,
    /// Last saved window x coordinate.
    pub x: Option<i32>,
    /// Last saved window y coordinate.
    pub y: Option<i32>,
    /// Whether the window starts maximized.
    pub maximized: bool,
}

impl Default for WindowConfig {
    fn default() -> (r: Self)
        ensures
            r == (WindowConfig { width: 1280, height: 800, x: None, y: None, maximized: false }),
    {
        WindowConfig { width: 1280, height: 800, x: None, y: None, maximized: false }
    }
}

/// Appearance configuration.
#[derive(Clone, Copy, Debug, PartialEq, Eq, Structural)]
pub struct AppearanceConfig {
    /// Theme preference.
    pub theme: Theme,
    /// Whether client-side decorations are enabled.
    pub custom_decorations: bool,
    /// Interface scale multiplier, held as the bit pattern of its `f64` value.
    pub interface_scale_bits: u64,
}

impl Default for AppearanceConfig {
    fn default() -> (r: Self)
        ensures
            r == (AppearanceConfig {
                theme: Theme::Auto,
                custom_decorations: true,
                interface_scale_bits: DEFAULT_INTERFACE_SCALE_BITS,
            }),
    {
        AppearanceConfig {
            theme: Theme::Auto,
            custom_decorations: true,
            interface_scale_bits: DEFAULT_INTERFACE_SCALE_BITS,
        }
    }
}

/// Usability configuration.
#[derive(Clone, Debug, PartialEq, Eq)]
pub struct UsabilityConfig {
    /// Whether tray integration is enabled.
    pub tray_enabled: bool,
    /// Whether closing the window keeps the app in background.
    pub background_process: bool,
    /// Optional custom tray icon path.
    pub tray_icon_path: Option<String>,
    /// Whether native file dialogs are disabled.
    pub disable_native_file_dialog: bool,
}

impl Default for UsabilityConfig {
    fn default() -> (r: Self)
        ensures
            r.tray_enabled,
            r.background_process,
            r.tray_icon_path is None,
            !r.disable_native_file_dialog,
    {
        UsabilityConfig {
            tray_enabled: true,
            background_process: true,
            tray_icon_path: None,
            disable_native_file_dialog: false,
        }
    }
}

/// Spellcheck configuration.
#[derive(Clone, Debug, PartialEq, Eq)]
pub struct SpellcheckConfig {
    /// Whether spellcheck is enabled.
    pub enabled: bool,
    /// Selected spellcheck language tags.
    pub languages: Vec<String>,
    /// Optional custom dictionary folder.
    pub custom_dictionary_dir: Option<String>,
}

impl Default for SpellcheckConfig {
    fn default() -> (r: Self)
        ensures
            !r.enabled,
            r.languages@.len() == 0,
            r.custom_dictionary_dir is None,
    {
        SpellcheckConfig { enabled: false, languages: Vec::new(), custom_dictionary_dir: None }
    }
}

/// Download configuration.
#[derive(Clone, Debug, PartialEq, Eq)]
pub struct DownloadConfig {
    /// Optional custom download directory.
    pub directory: Option<String>,
    /// Whether native file dialogs are disabled for downloads.
    pub disable_native_file_dialog: bool,
}

impl Default for DownloadConfig {
    fn default() -> (r: Self)
        ensures
            r.directory is None,
            !r.disable_native_file_dialog,
    {
        DownloadConfig { directory: None, disable_native_file_dialog: false }
    }
}

/// Performance configuration.
#[derive(Clone, Copy, Debug, PartialEq, Eq, Structural)]
pub struct PerformanceConfig {
    /// Whether hardware acceleration is enabled.
    pub hardware_acceleration: bool,
    /// Cache size limit in MiB.
    pub cache_size_mb: u32,
}

impl Default for PerformanceConfig {
    fn default() -> (r: Self)
        ensures
            r == (PerformanceConfig { hardware_acceleration: true, cache_size_mb: 256 }),
    {
        PerformanceConfig { hardware_acceleration: true, cache_size_mb: 256 }
    }
}

/// Root application configuration.
#[derive(Clone, Debug, PartialEq, Eq)]
pub struct AppConfig {
    /// Schema version used for migrations.
    pub version: u32,
    /// Window size and position.
    pub window: WindowConfig,
    /// Appearance settings.
    pub appearance: AppearanceConfig,
    /// Tray and workflow settings.
    pub usability: UsabilityConfig,
    /// Spellcheck settings.
    pub spellcheck: SpellcheckConfig,
    /// Download settings.
    pub downloads: DownloadConfig,
    /// Performance settings.
    pub performance: PerformanceConfig,
}

/// Whether `c` holds every default setting.
pub open spec fn is_default_config(c: AppConfig) -> bool {
    &&& c.version == CURRENT_CONFIG_VERSION
    &&& c.window == (WindowConfig { width: 1280, height: 800, x: None, y: None, maximized: false })
    &&& c.appearance == (AppearanceConfig {
        theme: Theme::Auto,
        custom_decorations: true,
        interface_scale_bits: DEFAULT_INTERFACE_SCALE_BITS,
    })
    &&& c.usability.tray_enabled
    &&& c.usability.background_process
    &&& c.usability.tray_icon_path is None
    &&& !c.usability.disable_native_file_dialog
    &&& !c.spellcheck.enabled
    &&& c.spellcheck.languages@.len() == 0
    &&& c.spellcheck.custom_dictionary_dir is None
    &&& c.downloads.directory is None
    &&& !c.downloads.disable_native_file_dialog
    &&& c.performance == (PerformanceConfig { hardware_acceleration: true, cache_size_mb: 256 })
}

/// The schema version a config has after migration.
pub open spec fn migrated_version(version: u32) -> u32 {
    if version < CURRENT_CONFIG_VERSION {
        CURRENT_CONFIG_VERSION
    } else {
        version
    }
}

/// Whether `new` is `old` with only its version changed to `version`.
pub open spec fn same_settings(old: AppConfig, new: AppConfig) -> bool {
    &&& new.window == old.window
    &&& new.appearance == old.appearance
    &&& new.usability == old.usability
    &&& new.spellcheck == old.spellcheck
    &&& new.downloads == old.downloads
    &&& new.performance == old.performance
}

impl Default for AppConfig {
    fn default() -> (r: Self)
        ensures
            is_default_config(r),
    {
        AppConfig {
            version: CURRENT_CONFIG_VERSION,
            window: WindowConfig::default(),
            appearance: AppearanceConfig::default(),
            usability: UsabilityConfig::default(),
            spellcheck: SpellcheckConfig::default(),
            downloads: DownloadConfig::default(),
            performance: PerformanceConfig::default(),
        }
    }
}

impl AppConfig {
    /// Migrates this config to the current schema version: an older version is raised to
    /// the current one; every setting is kept.
    pub fn migrate(self) -> (r: Self)
        ensures
            r.version == migrated_version(self.version),
            same_settings(self, r),
    {
        let mut config = self;
        if config.version < CURRENT_CONFIG_VERSION {
            config.version = CURRENT_CONFIG_VERSION;
        }
        config
    }
}

/// Migration never lowers the version, always reaches the current schema, and migrating
/// twice is the same as migrating once.
pub proof fn lemma_migration_reaches_current(version: u32)
    ensures
        migrated_version(version) >= CURRENT_CONFIG_VERSION,
        migrated_version(version) >= version,
        migrated_version(migrated_version(version)) == migrated_version(version),
        version >= CURRENT_CONFIG_VERSION ==> migrated_version(version) == version,
{
}

} // verus!
