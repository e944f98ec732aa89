[package]
name = "ipiis"
version = "0.1.0"
edition = "2021"
publish = false

[dependencies]
ed25519-dalek = "=1.0.1"
ed25519 = { version = "=1.5.3", features = ["pkcs8", "alloc"] }
blake3 = "*"
rand = "=0.8.8"
sled = "=0.34.7"
tempfile = "*"
rcgen = "=0.9.3"
rustls = { version = "=0.20.9", features = ["dangerous_configuration"] }
quinn = "=0.8.5"
tokio = { version = "1", features = ["full"] }
clap = { version = "4", features = ["derive", "env"] }
serde = { version = "1", features = ["derive"] }
serde_json = "1"
dirs = "*"
ipnet = "*"
byte-unit = "*"
