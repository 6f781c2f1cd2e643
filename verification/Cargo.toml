[package]
name = "eval_rs"
version = "0.1.0"
edition = "2021"
publish = false

[dependencies]
regex = "=1.13.1"
tera = { version = "=1.20.1", default-features = false }
serde_json = "=1.0.154"
serde = { version = "=1.0.229", features = ["derive"] }
uuid = { version = "=1.29.0", features = ["v4"] }
chrono = { version = "=0.4.45", features = ["serde"] }
axum = "=0.8.9"
tower-http = { version = "=0.6.11", features = ["limit", "timeout"] }
tokio = { version = "=1.54.1", features = ["full"] }
tokio-stream = { version = "=0.1.19", features = ["sync"] }
futures = "=0.3.34"
sqlx = { version = "=0.8.6", default-features = false, features = ["runtime-tokio", "sqlite", "derive", "json", "chrono"] }
config = { version = "=0.15.27", default-features = false, features = ["toml"] }
dotenvy = "=0.15.7"
toml = "=0.8.23"
thiserror = "=2.0.21"
anyhow = "=1.0.104"
tracing = "=0.1.44"
tracing-subscriber = { version = "=0.3.23", features = ["env-filter", "json"] }
async-trait = "=0.1.92"
rig-core = "=0.38.2"
