[package]
name = "longport"
version = "0.1.0"
edition = "2021"
publish = false

[dependencies]
time = "=0.3.55"
tokio = { version = "=1.53.2", features = ["rt", "sync", "macros", "time"] }
reqwest = { version = "=0.12.28", default-features = false, features = ["json"] }
serde = { version = "=1.0.229", features = ["derive"] }
dotenvy = "=0.15.7"
