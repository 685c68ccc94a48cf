[package]
name = "var_desktop"
version = "0.1.0"
edition = "2021"
publish = false

[dependencies]
chrono = "0.4"
sha2 = "0.10"
base64 = "0.22"
serde = { version = "1", features = ["derive"] }
serde_json = "1"
rusqlite = { version = "0.32", features = ["bundled"] }
walkdir = "2"
uuid = { version = "1", features = ["v4"] }
dirs = "5"
sysinfo = "0.33"
zip = { version = "2", default-features = false, features = ["deflate"] }
anyhow = "1"
parking_lot = "0.12"
axum = "0.8"
tokio = { version = "1", features = ["rt", "net"] }
tower = { version = "0.5", features = ["util"] }
tower-http = { version = "0.6", features = ["fs"] }
