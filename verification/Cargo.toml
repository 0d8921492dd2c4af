[package]
name = "tower-api"
version = "0.1.0"
edition = "2021"
publish = false

[dependencies]
anyhow = "=1.0.104"
axum = "=0.7.9"
chrono = { version = "=0.4.45", features = ["serde"] }
serde = { version = "=1.0.229", features = ["derive"] }
serialport = { version = "=4.10.1", default-features = false }
tokio = { version = "=1.54.1", features = ["macros", "rt-multi-thread", "sync", "time", "net"] }
tracing = "=0.1.44"
tracing-subscriber = { version = "=0.3.23", features = ["env-filter"] }
utoipa = { version = "=4.2.3", features = ["axum_extras", "chrono"] }
utoipa-swagger-ui = { version = "=7.1.0", features = ["axum", "vendored"] }
