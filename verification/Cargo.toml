[package]
name = "rust_certbot"
version = "0.1.0"
edition = "2021"
publish = false

[dependencies]
openssl = "*"
chrono = "*"
uuid = { version = "*", features = ["v4"] }
url = "*"
acme-lib = "*"
toml = "*"
serde = { version = "*", features = ["derive"] }
serde_json = "*"
anyhow = "*"
actix-web = "*"
actix-files = "*"
awc = "*"
tokio = { version = "*", features = ["full"] }
tokio-cron-scheduler = "*"
tracing = "*"
tracing-subscriber = { version = "*", features = ["env-filter"] }
tracing-appender = "*"
