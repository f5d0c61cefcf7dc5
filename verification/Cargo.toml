[package]
name = "patates"
version = "0.1.0"
edition = "2021"
publish = false

[dependencies]
mongodb = "=2.8.2"
elasticsearch = "=7.17.7-alpha.1"
tokio = { version = "1", features = ["macros", "rt-multi-thread"] }
futures = "0.3"
serde = { version = "1", features = ["derive"] }
serde_json = "1"
toml = "*"
