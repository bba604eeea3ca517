[package]
name = "lanbridge"
version = "0.1.0"
edition = "2021"
publish = false

[dependencies]
anyhow = "=1.0.104"
blake3 = "=1.8.7"
chrono = { version = "=0.4.45", default-features = false, features = ["alloc", "std"] }
ed25519-dalek = { version = "=2.2.0", features = ["rand_core"] }
local-ip-address = "*"
notify = "*"
rand = "=0.8.8"
rusqlite = { version = "*", features = ["bundled"] }
serde = { version = "=1.0.229", features = ["derive"] }
serde_json = "=1.0.154"
sha2 = "=0.10.9"
thiserror = "*"
uuid = { version = "=1.29.0", features = ["v4"] }
walkdir = "=2.5.0"

[dev-dependencies]
tempfile = "=3.27.0"
