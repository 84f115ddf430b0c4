[package]
name = "dnsproxy"
version = "0.1.0"
edition = "2021"
publish = false

[dependencies]
trust-dns-proto = "0.20"
trust-dns-client = "0.20"
trust-dns-server = "0.20"
tokio = { version = "1", features = ["full"] }
