[package]
name = "tact_tui"
version = "0.1.0"
edition = "2021"
publish = false

[dependencies]
arboard = { version = "=3.7.0", default-features = false, features = ["image-data"] }
base64 = "=0.23.1"
crossterm = { version = "=0.29.0", features = ["event-stream", "osc52"] }
futures-util = { version = "=0.3.34", default-features = false }
png = "=0.18.1"
ratatui = { version = "=0.30.2", default-features = false, features = ["crossterm"] }
rusqlite = { version = "=0.41.1", features = ["bundled"] }
semver = "=1.0.28"
serde = { version = "=1.0.229", features = ["derive"] }
serde_json = { version = "=1.0.154", features = ["raw_value"] }
thiserror = "=2.0.21"
tokio = { version = "=1.54.1", features = ["rt", "sync", "time", "macros"] }
tokio-util = { version = "=0.7.20", default-features = false }
unicode-segmentation = "=1.13.3"
unicode-width = "=0.2.3"
zstd = "=0.14.3"
