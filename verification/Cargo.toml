[package]
name = "openwhatsapp"
version = "0.1.0"
edition = "2021"
publish = false

[dependencies]
anyhow = "1"
dirs = "*"
uuid = { version = "1", features = ["v4"] }
serde = { version = "1", features = ["derive"] }
toml = "*"
rusqlite = "*"
tokio = { version = "1", features = ["sync", "rt"] }
tracing = "0.1"
tracing-subscriber = { version = "0.3", features = ["env-filter", "fmt"] }
reqwest = "*"
gtk4 = "*"
webkit6 = "*"
gio = "*"
gdk-pixbuf = "*"
gtk = "*"
libappindicator = "*"
enchant = "*"
