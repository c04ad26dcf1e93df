[package]
name = "wmonitor"
version = "0.1.0"
edition = "2021"
publish = false

[dependencies]
anyhow = "1"
async-trait = "0.1"
bitflags = "2"
chrono = { version = "0.4", features = ["serde"] }
dashmap = "6"
dotenv = "0.15"
image = { version = "0.25", default-features = false, features = ["png"] }
moka = { version = "0.12", features = ["sync", "future"] }
poise = "0.6"
reqwest = { version = "0.12", default-features = false, features = ["rustls-tls"] }
serde = { version = "1", features = ["derive"] }
serde_json = "1"
sqlx = { version = "0.8", default-features = false, features = ["sqlite", "runtime-tokio", "chrono", "json", "macros", "migrate", "derive"] }
tap = "1"
tokio = { version = "1", features = ["full"] }
toml_edit = { version = "0.22", features = ["serde"] }
tracing = "0.1"
tracing-appender = "0.2"
tracing-subscriber = "0.3"
typed-builder = "0.20"
