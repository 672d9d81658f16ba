[package]
name = "signal_store"
version = "0.1.0"
edition = "2021"
publish = false

[dependencies]
sled = "0.34"
parking_lot = "0.11"
serde = { version = "1", features = ["derive"] }
serde_json = "1"
log = "0.4"
async-trait = "0.1"
