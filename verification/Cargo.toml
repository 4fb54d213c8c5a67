[package]
name = "xero_service"
version = "0.1.0"
edition = "2021"
publish = false

[dependencies]
anyhow = "1"
async-trait = "0.1"
axum = "0.7"
base64 = "=0.22.1"
bytes = "1"
chrono = { version = "=0.4.45", features = ["serde"] }
clap = { version = "4", default-features = false, features = ["std", "derive", "help", "usage", "error-context"] }
cron = "=0.17.0"
dashmap = { version = "=6.2.1", default-features = false }
deadpool-redis = { version = "*", features = ["rt_tokio_1"] }
dotenvy = "0.15"
futures = "0.3"
gcloud-storage = { version = "=1.3.0", default-features = false, features = ["rustls-tls", "auth", "jwt-rust-crypto"] }
gcp-bigquery-client = { version = "0.28", default-features = false, features = ["ring"] }
rand = "=0.8.8"
reqwest = { version = "=0.12.28", default-features = false, features = ["json"] }
serde = { version = "1", features = ["derive"] }
serde_json = "=1.0.154"
sha2 = "=0.10.9"
sqlx = { version = "0.8", default-features = false, features = ["runtime-tokio", "postgres", "chrono", "uuid", "json"] }
thiserror = "1"
tokio = { version = "1", features = ["rt-multi-thread", "macros", "sync", "time", "fs", "net"] }
tower-http = { version = "0.6", features = ["trace"] }
tracing = "0.1"
tracing-subscriber = { version = "0.3", default-features = false, features = ["fmt", "env-filter"] }
uuid = { version = "=1.29.0", features = ["v4", "serde"] }
