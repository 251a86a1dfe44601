[package]
name = "netcapture"
version = "0.1.0"
edition = "2021"
publish = false

[dependencies]
pcap = "*"
dns-lookup = "*"
serde = { version = "*", features = ["derive"] }
serde_json = "*"
