[package]
name = "yuuka"
version = "0.1.0"
edition = "2021"
publish = false

[dependencies]
backon = "1"
base64 = "0.22"
getrandom = "0.2"
serde = { version = "1", features = ["derive"] }
serde_json = "1"
tokio = { version = "1", features = ["full"] }
axum = { version = "0.8", features = ["ws"] }
tower = { version = "0.5", features = ["util"] }
tower-http = { version = "0.6", features = ["fs", "set-header"] }
rusqlite = { version = "*", features = ["bundled"] }
tracing = "0.1"
tracing-subscriber = { version = "0.3", features = ["env-filter", "fmt"] }
chrono = "0.4"
futures-util = "0.3"
async-trait = "0.1"
thiserror = "2"
