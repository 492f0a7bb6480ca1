[package]
name = "tibprice"
version = "0.1.0"
edition = "2021"
publish = false

[dependencies]
anyhow = "*"
argfile = "*"
chrono = { version = "*", features = ["serde"] }
clap = { version = "*", features = ["derive", "env"] }
dotenvy = "*"
env_logger = "*"
log = "*"
rand = "*"
reqwest = { version = "*", default-features = false, features = ["blocking", "json", "rustls-tls"] }
serde = { version = "*", features = ["derive"] }
serde_json = "*"
