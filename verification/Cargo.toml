[package]
name = "audit_core"
version = "0.1.0"
edition = "2021"
publish = false

[dependencies]
chrono = "0.4"
hex = "0.4"
hickory-proto = "0.24"
httparse = "1"
image = { version = "0.24", default-features = false, features = ["jpeg"] }
interprocess = "1"
mac_address = "1"
rcgen = "0.12"
rustls = { version = "0.23", default-features = false, features = ["ring", "std"] }
serde = { version = "1", features = ["derive"] }
serde_json = "1"
sha2 = "0.10"
smoltcp = "0.11"
sysinfo = "0.30"
time = "0.3"
webpki-roots = "0.26"
