[package]
name = "sqlcord"
version = "0.1.0"
edition = "2021"
publish = false

[dependencies]
chrono = "0.4"
dotenvy = "0.15"
serenity = { version = "0.12", default-features = false, features = ["builder", "client", "gateway", "http", "model", "rustls_backend"] }
tokio = { version = "1", features = ["macros", "rt-multi-thread", "sync", "time"] }
tracing = "0.1"
tracing-subscriber = "0.3"
