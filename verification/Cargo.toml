[package]
name = "disco_bot"
version = "0.1.0"
edition = "2021"
publish = false

[dependencies]
anyhow = "1"
async-trait = "0.1"
chrono = { version = "0.4", default-features = false, features = ["clock"] }
reqwest = { version = "0.12", default-features = false }
serde = { version = "1", features = ["derive"] }
serde_json = "1"
serenity = { version = "0.12", default-features = false, features = ["builder", "cache", "client", "gateway", "http", "model", "utils", "rustls_backend", "voice"] }
songbird = { version = "0.5", features = ["builtin-queue"] }
tokio = { version = "1", features = ["sync", "rt-multi-thread", "macros", "time", "process"] }
uuid = { version = "1", features = ["v4"] }
