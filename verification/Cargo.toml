[package]
name = "mayara-signalk"
version = "0.1.0"
edition = "2021"
publish = false

[dependencies]
axum = { version = "=0.8.9", features = ["ws"] }
chrono = "=0.4.45"
futures = "=0.3.34"
http = "=1.5.0"
hyper = "=1.12.0"
log = "=0.4.35"
serde = { version = "=1.0.229", features = ["derive"] }
serde_json = "=1.0.154"
tokio = { version = "=1.54.1", features = ["macros", "rt", "sync", "time"] }
utoipa = "=5.5.0"
utoipa-swagger-ui = { version = "9", default-features = false, features = ["axum", "vendored"] }
