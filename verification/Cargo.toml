[package]
name = "arda-aule"
version = "0.1.0"
edition = "2021"
publish = false

[dependencies]
sha1 = "0.10"
regex = "1"
uuid = { version = "1", features = ["v4"] }
serde_json = "1"
chrono = "0.4"
anyhow = "1"
fs2 = "0.4"
