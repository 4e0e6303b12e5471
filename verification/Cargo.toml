[package]
name = "cognichain"
version = "0.1.0"
edition = "2021"
publish = false

[dependencies]
sha2 = "0.10"
secp256k1 = "0.27"
hex = "0.4"
uuid = { version = "1", features = ["v4"] }
chrono = "0.4"
serde = { version = "1", features = ["derive"] }
serde_json = "1"
bincode = "1"
sled = "0.34"
tokio = { version = "1", features = ["full"] }
structopt = "0.3"
env_logger = "0.10"
log = "0.4"
warp = "0.3"
druid = { version = "0.8", features = ["im"] }
im = "15"
reqwest = { version = "0.11", default-features = false, features = ["json", "rustls-tls"] }
anyhow = "1"
rand = "0.8"
