[package]
name = "ralphtown"
version = "0.1.0"
edition = "2021"
publish = false

[dependencies]
axum = { version = "*", features = ["ws"] }
tokio = { version = "*", features = ["macros", "rt-multi-thread", "sync", "net", "time"] }
futures = "*"
serde = { version = "*", features = ["derive"] }
serde_json = "*"
uuid = { version = "*", features = ["v4", "serde"] }
tower-http = { version = "*", features = ["cors"] }
tracing = "*"
tracing-subscriber = "*"
rusqlite = { version = "*", features = ["bundled"] }
chrono = { version = "*", features = ["serde"] }
dirs = "*"
git2 = { version = "*", default-features = false }
thiserror = "*"
