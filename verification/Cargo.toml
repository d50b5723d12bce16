[package]
name = "sync-engine"
version = "0.1.0"
edition = "2021"
publish = false

[dependencies]
uuid = { version = "=1.29.0", features = ["v7"] }
chrono = "=0.4.45"
sha2 = "=0.10.9"
hex = "=0.4.3"
zstd = "=0.13.4"
serde = { version = "=1.0.229", features = ["derive"] }
serde_json = "=1.0.154"
semver = "=1.0.28"
ed25519-dalek = { version = "=2.2.0", features = ["rand_core"] }
rand = "=0.8.8"
tokio = { version = "=1.54.1", features = ["rt-multi-thread", "macros", "sync", "signal"] }
tracing = "=0.1.44"
anyhow = "=1.0.104"
metrics = "=0.24.6"
tracing-subscriber = { version = "=0.3.23", features = ["env-filter", "fmt", "json"] }
opentelemetry = "=0.27.1"
rustls-pemfile = "=2.2.0"
tokio-rustls = { version = "=0.26.6", default-features = false, features = ["ring", "tls12"] }
sqlx = { version = "=0.8.6", default-features = false, features = ["postgres", "runtime-tokio"] }
