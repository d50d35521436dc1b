[package]
name = "watchdog"
version = "0.1.0"
edition = "2021"
publish = false

[dependencies]
axum = "0.8"
axum-extra = { version = "0.10", features = ["typed-header"] }
chrono = { version = "0.4", features = ["serde"] }
clap = { version = "4", features = ["derive"] }
constant_time_eq = "=0.4.2"
eyre = "0.6"
hex = { version = "0.4", features = ["serde"] }
parking_lot = "0.12"
positioned-io = "0.3"
rand = "=0.9.5"
rc-zip-tokio = "=4.3.1"
reqwest = { version = "0.12", features = ["json"] }
serde = { version = "1", features = ["derive"] }
serde_json = "=1.0.154"
sha2 = "0.11"
tokio = { version = "1", features = ["full"] }
toml_edit = { version = "=0.22.27", features = ["serde"] }
tracing = "0.1"
tracing-subscriber = "0.3"
