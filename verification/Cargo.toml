[package]
name = "actor_rt"
version = "0.1.0"
edition = "2021"
publish = false

[dependencies]
tokio-sync = "0.2.0-alpha.6"
futures = "0.3"
serde = { version = "1", features = ["derive"] }
