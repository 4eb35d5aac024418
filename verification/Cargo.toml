[package]
name = "wasmrust"
version = "0.1.0"
edition = "2021"
publish = false

[dependencies]
serde = { version = "1", features = ["derive"] }
serde_json = "1"
chrono = { version = "0.4", features = ["serde"] }
uuid = { version = "1", features = ["v4", "serde"] }
thiserror = "1"
clap = { version = "4", features = ["derive"] }
tokio = { version = "1", features = ["macros", "rt-multi-thread"] }
warp = { version = "0.3", default-features = false }
sqlx = { version = "0.7", default-features = false, features = ["runtime-tokio", "sqlite"] }
reqwest = { version = "0.11", default-features = false, features = ["json", "rustls-tls"] }
env_logger = "0.10"
