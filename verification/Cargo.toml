[package]
name = "emrs"
version = "0.1.0"
edition = "2021"
publish = false

[dependencies]
anyhow = "=1.0.104"
async-trait = "=0.1.92"
axum = "=0.8.9"
clap = { version = "=4.6.7", features = ["derive"] }
dashmap = "=6.2.1"
filetime = "=0.2.29"
http = "=1.5.0"
image = { version = "=0.25.10", default-features = false, features = ["jpeg", "png", "webp"] }
listen_port = "=0.1.3"
notify = "=8.2.1"
quick-xml = "=0.37.5"
regex = "=1.13.1"
reqwest = { version = "=0.12.28", default-features = false, features = ["json", "rustls-tls", "stream"] }
serde = { version = "=1.0.229", features = ["derive"] }
serde_json = "=1.0.154"
sha2 = "=0.10.9"
sqlx = { version = "=0.8.6", default-features = false, features = ["any", "mysql", "postgres", "runtime-tokio", "sqlite"] }
time = { version = "=0.3.55", features = ["formatting", "macros", "local-offset"] }
tokio = { version = "=1.54.1", features = ["full"] }
tokio-util = { version = "=0.7.20", features = ["io"] }
tower-http = { version = "=0.6.11", features = ["catch-panic", "cors", "timeout", "trace"] }
tracing = "=0.1.44"
tracing-appender = "=0.2.5"
tracing-subscriber = { version = "=0.3.23", features = ["env-filter", "time", "local-time"] }
uuid = { version = "=1.29.0", features = ["v4"] }
