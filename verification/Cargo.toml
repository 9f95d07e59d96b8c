[package]
name = "rustyz"
version = "0.1.0"
edition = "2021"
publish = false

[dependencies]
chrono = "0.4"
chrono-tz = "0.10"
futures = "0.3"
image = { version = "0.25", default-features = false, features = ["png", "jpeg", "gif", "webp"] }
log = "0.4"
num-format = "0.4"
num-traits = "0.2"
rand = "0.8"
regex = "1"
reqwest = { version = "0.12", default-features = false, features = ["json", "rustls-tls"] }
serde = { version = "1", features = ["derive"] }
serde_json = "1"
serenity = { version = "0.12", default-features = false, features = ["builder", "cache", "client", "gateway", "model", "http", "rustls_backend", "chrono", "utils"] }
sqlx = { version = "0.8", default-features = false, features = ["runtime-tokio", "postgres", "chrono", "rust_decimal"] }
tokio = { version = "1", features = ["macros", "rt-multi-thread", "signal", "process", "sync", "time", "fs"] }
toml = "0.8"
tracing = "0.1"
tracing-subscriber = "0.3"
