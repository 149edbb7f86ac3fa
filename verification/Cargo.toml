[package]
name = "eventio"
version = "0.1.0"
edition = "2021"
publish = false

[dependencies]
crossbeam-channel = "0.5"
kafka = { version = "*", default-features = false }
ndarray = "0.15"
nom = "7"
pcap-parser = { version = "*", features = ["data", "serialize"] }
rmp-serde = "1"
serde = { version = "1", features = ["derive"] }
serde_bytes = "0.11"
