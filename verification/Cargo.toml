[package]
name = "kessler"
version = "0.1.0"
edition = "2021"
publish = false

[dependencies]
serde = { version = "=1.0.229", features = ["derive"] }
csv = "=1.4.0"
log = "=0.4.35"
enum-iterator = "=2.3.0"
rand = "0.8"
slotmap = "1"
