//! Core logic of the OpenWhatsapp desktop client: configuration, accounts,
//! customizations, downloads, shortcuts, spellcheck, theme, tray and webview rules.

pub mod accounts;
pub mod application;
pub mod config;
pub mod customizations;
pub mod downloads;
pub mod drag_drop;
pub mod events;
pub mod ids;
pub mod injection;
pub mod notifications;
pub mod order;
pub mod paths;
pub mod settings;
pub mod shortcuts;
pub mod spellcheck;
pub mod text;
pub mod theme;
pub mod tray;
pub mod userstyle;
pub mod webview;
