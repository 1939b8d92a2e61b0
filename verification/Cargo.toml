[package]
name = "graphite_workstation_core"
version = "0.1.0"
edition = "2021"
publish = false

[dependencies]
hex = "0.4"
hmac = "0.12"
sha2 = "0.10"
rand = "0.8"
zeroize = "1"
serde = { version = "1", features = ["derive"] }
log = "0.4"
