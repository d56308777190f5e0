[package]
name = "us_stock_api"
version = "0.1.0"
edition = "2021"
publish = false

[dependencies]
axum = "=0.7.9"
cached = { version = "=0.53.1", features = ["async", "proc_macro"] }
chrono = { version = "=0.4.45", features = ["serde"] }
dotenvy = "=0.15.7"
http = "=1.5.0"
jsonwebtoken = "=9.3.1"
once_cell = "=1.21.4"
prometheus = { version = "=0.13.4", default-features = false }
sea-orm = { version = "=1.1.20", default-features = false, features = ["sqlx-mysql", "runtime-tokio-rustls", "macros", "with-json", "with-chrono", "with-rust_decimal"] }
serde = { version = "=1.0.229", features = ["derive"] }
serde_json = { version = "=1.0.154", features = ["raw_value"] }
sqlx = { version = "=0.8.6", default-features = false }
thiserror = "=2.0.21"
tokio = { version = "=1.54.1", features = ["full"] }
tower-http = { version = "=0.5.2", features = ["trace"] }
tracing = "=0.1.44"
tracing-subscriber = { version = "=0.3.23", features = ["json", "env-filter"] }
validator = { version = "=0.18.1", default-features = false }
