[package]
name = "helix_db"
version = "0.1.0"
edition = "2021"
publish = false

[dependencies]
uuid = { version = "=1.29.0", features = ["v4", "v6"] }
twox-hash = "=2.1.5"
chrono = "=0.4.45"
url = "=2.5.8"
serde = { version = "=1.0.229", features = ["derive"] }
serde_json = "=1.0.154"
sonic-rs = "=0.5.10"
bincode = "=1.3.3"
reqwest = { version = "0.12", default-features = false, features = ["blocking", "json", "rustls-tls"] }
