[package]
name = "clawhive"
version = "0.1.0"
edition = "2021"
publish = false

[dependencies]
anyhow = "=1.0.104"
chrono = { version = "=0.4.45", default-features = false, features = ["clock", "std"] }
serde = { version = "=1.0.229", features = ["derive"] }
serde_json = "=1.0.154"
serde_yaml = "=0.9.34"
tokio = { version = "=1.54.1", default-features = false, features = ["fs", "sync", "io-util", "rt", "macros"] }
reqwest = { version = "=0.12.28", default-features = false }
uuid = { version = "1", features = ["v4"] }
tar = "0.4"
flate2 = "1"
zip = { version = "2", default-features = false, features = ["deflate"] }

[dev-dependencies]
tempfile = "=3.27.0"
