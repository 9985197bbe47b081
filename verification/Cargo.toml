[package]
name = "kraken_trades"
version = "0.1.0"
edition = "2021"
publish = false

[dependencies]
base64 = "*"
chrono = "*"
clap = { version = "*", features = ["derive"] }
csv = "*"
env_logger = "*"
hmac = "*"
log = "*"
reqwest = { version = "*", default-features = false, features = ["blocking"] }
rust_decimal = "*"
serde = { version = "*", features = ["derive"] }
serde_json = "*"
sha2 = "*"
