[package]
name = "foo_service"
version = "0.1.0"
edition = "2021"
publish = false

[dependencies]
java-properties = "*"
serde = { version = "*", features = ["derive"] }
serde_json = "*"
actix-web = "*"
tokio = { version = "*", features = ["macros", "rt-multi-thread", "fs", "io-util"] }
mongodb = "*"
elasticsearch = "=8.19.0-alpha.1"
log = "*"
env_logger = "*"
