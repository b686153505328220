[package]
name = "slayerfs"
version = "0.1.0"
edition = "2021"
publish = false

[dependencies]
anyhow = "=1.0.104"
chrono = "=0.4.45"
clap = { version = "=4.6.7", features = ["derive"] }
etcd-client = "=0.8.4"
futures = "=0.3.34"
http = "1"
libc = "=0.2.191"
lru = "=0.19.0"
rfuse3 = { version = "=0.0.9", features = ["tokio-runtime", "unprivileged"] }
sea-orm = { version = "=1.1.20", default-features = false, features = ["sqlx-sqlite", "sqlx-postgres", "runtime-tokio-rustls", "macros"] }
serde = { version = "=1.0.229", features = ["derive"] }
serde_json = "=1.0.154"
serde_yaml = "=0.9.34"
tokio = { version = "=1.54.1", features = ["full"] }
tracing = "=0.1.44"
tracing-subscriber = { version = "=0.3.23", features = ["env-filter"] }
