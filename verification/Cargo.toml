[package]
name = "nixclip_core"
version = "0.1.0"
edition = "2021"
publish = false

[dependencies]
blake3 = "=1.8.7"
chrono = "=0.4.45"
clap = { version = "=4.6.7", features = ["derive"] }
dirs = "=5.0.1"
futures-util = "=0.3.34"
gtk4 = "=0.9.7"
image = { version = "=0.25.10", default-features = false, features = ["png", "jpeg"] }
libadwaita = "=0.7.2"
libc = "=0.2.191"
nucleo-matcher = "=0.2.0"
regex = "=1.13.1"
rmp-serde = "=1.3.1"
rusqlite = { version = "=0.31.0", features = ["bundled"] }
serde = { version = "=1.0.229", features = ["derive"] }
serde_json = "=1.0.154"
thiserror = "=1.0.69"
tokio = { version = "=1.54.1", features = ["full"] }
toml = "=0.8.23"
tracing = "=0.1.44"
tracing-subscriber = { version = "=0.3.23", features = ["env-filter", "json"] }
zbus = { version = "=4.4.0", default-features = false, features = ["tokio"] }
