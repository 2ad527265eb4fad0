# OpenWhatsapp

A native Linux desktop client for WhatsApp Web (GTK4 and WebKitGTK), split in two:

- `src/` is the `openwhatsapp` library, written in Verus: the configuration and its
  migration, account and customization records and their database rows, application
  paths, download naming, spellcheck language lists, keyboard shortcuts, theme rules, tray
  and D-Bus menu answers, webview event rules, and the scripts injected into the page.
  Every function there carries a contract that Verus proves.
- `app/` is the program around it: GTK and WebKit widgets, D-Bus, SQLite, the TOML file,
  the environment and the event loop. It asks the library what to do and does it.
- `tests/` exercises the library on concrete values.

Calls into other crates (`uuid`, `dirs`) and into a few std functions stand behind small
trusted wrappers in `src/ids.rs`, `src/paths.rs`, `src/accounts.rs` and `src/text.rs`, each
with a doc comment that says what its contract assumes.
