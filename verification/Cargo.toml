[package]
name = "tais_core"
version = "0.2.0"
edition = "2021"
publish = false

[dependencies]
serde = { version = "1", features = ["derive"] }
serde_json = "1"
uuid = { version = "1", features = ["v4"] }
chrono = { version = "0.4", features = ["serde"] }
sha1 = "0.10"
rand = "0.8"
argon2 = "0.5"
jsonwebtoken = "9"
petgraph = "0.6"
tokio = { version = "1", features = ["rt-multi-thread", "macros", "sync", "time", "fs", "process", "net"] }
axum = { version = "0.8", features = ["ws"] }
reqwest = { version = "0.12", default-features = false, features = ["json"] }
sqlx = { version = "0.8", default-features = false, features = ["sqlite", "runtime-tokio"] }
tracing = "0.1"
tracing-subscriber = { version = "0.3", features = ["env-filter"] }
thiserror = "2"
anyhow = "1"
toml = "0.8"
async-trait = "0.1"
