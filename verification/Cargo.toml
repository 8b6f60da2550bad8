[package]
name = "mc_motd"
version = "0.1.0"
edition = "2021"
publish = false

[dependencies]
byteorder = "=1.5.0"
bytes = "=1.12.1"
serde_json = "=1.0.154"
kovi = "0.12"
tokio = { version = "=1.54.1", features = ["net", "time", "io-util"] }
trust-dns-resolver = "=0.23.2"
