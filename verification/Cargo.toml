[package]
name = "offchain_bot"
version = "0.1.0"
edition = "2021"
publish = false

[dependencies]
aes = "=0.9.3"
anyhow = "=1.0.104"
base64 = "=0.23.1"
ed25519-dalek = "*"
hex = "=0.4.3"
hmac = "=0.13.0"
pbkdf2 = "=0.13.0"
rand = "=0.10.3"
reqwest = { version = "=0.13.5", default-features = false, features = ["json"] }
serde = { version = "=1.0.229", features = ["derive"] }
serde_json = "=1.0.151"
sha2 = "=0.11.0"
tokio = { version = "=1.53.2", features = ["rt-multi-thread", "macros", "time", "sync", "signal"] }
uuid = { version = "=1.27.0", features = ["v4"] }
