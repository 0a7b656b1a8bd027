[package]
name = "watermelon"
version = "0.1.0"
edition = "2021"
publish = false

[dependencies]
async-trait = "*"
axum = "*"
chrono = "*"
chrono-tz = "*"
futures-util = "*"
lazy_static = "*"
log = "*"
nix = { version = "*", features = ["signal"] }
rand = "*"
reqwest = { version = "*", default-features = false, features = ["json"] }
rusqlite = { version = "*", features = ["bundled"] }
serde = { version = "*", features = ["derive"] }
serde_json = "*"
sysinfo = "*"
tokio = { version = "*", features = ["rt-multi-thread", "macros", "net", "time", "sync", "process"] }
tokio-tungstenite = "*"
urlencoding = "*"
uuid = { version = "*", features = ["v4"] }
