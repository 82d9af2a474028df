[package]
name = "websxz_accounts_backend"
version = "0.1.0"
edition = "2021"
publish = false

[dependencies]
askama = "=0.12.1"
axum = "=0.7.9"
axum-extra = { version = "=0.9.6", features = ["typed-header"] }
chrono = { version = "=0.4.45", features = ["serde"] }
dotenv = "=0.15.0"
jsonwebtoken = "=9.3.1"
lettre = { version = "=0.11.23", default-features = false, features = ["builder", "smtp-transport", "pool", "hostname", "rustls-tls"] }
rand = "=0.8.8"
redis = "=0.25.5"
reqwest = { version = "=0.12.28", default-features = false, features = ["rustls-tls"] }
sea-orm = { version = "=0.12.15", features = ["sqlx-mysql", "runtime-tokio-rustls", "macros"] }
serde = { version = "=1.0.229", features = ["derive"] }
serde_json = "=1.0.154"
sha2 = "=0.10.9"
tokio = { version = "=1.54.1", features = ["macros", "rt-multi-thread", "net"] }
tracing = "=0.1.44"
tracing-subscriber = "=0.3.23"
validator = "=0.18.1"
