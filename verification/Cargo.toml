[package]
name = "kovi_plugin_acl"
version = "0.1.0"
edition = "2021"
publish = false

[dependencies]
axum = "=0.8.9"
chrono = { version = "=0.4.45", features = ["serde"] }
include_dir = "=0.7.4"
jsonwebtoken = "=9.3.1"
kovi = "=0.12.7"
mime_guess = "=2.0.5"
serde = { version = "=1.0.229", features = ["derive"] }
serde_json = "=1.0.154"
sha2 = "=0.10.9"
sysinfo = "=0.40.1"
tokio = { version = "=1.54.1", features = ["full"] }
tower-http = { version = "=0.6.11", features = ["cors", "timeout", "trace"] }
uuid = { version = "=1.29.0", features = ["v4"] }
