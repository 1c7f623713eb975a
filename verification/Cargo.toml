[package]
name = "netscanner"
version = "0.1.0"
edition = "2021"
publish = false

[dependencies]
clap = { version = "4", features = ["derive"] }
colored = "*"
comfy-table = "*"
native-tls = "*"
oid-registry = "*"
pcap = "*"
pnet = "*"
rayon = "*"
serde = { version = "1", features = ["derive"] }
serde_json = "1"
x509-parser = "*"
