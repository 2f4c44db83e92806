[package]
name = "couch-unifi-protect"
version = "0.1.0"
edition = "2021"
publish = false

[dependencies]
rustls = { version = "=0.23.46", default-features = false, features = ["ring", "std", "tls12"] }
serde = { version = "=1.0.229", features = ["derive"] }
serde_json = "=1.0.154"
sha2 = "=0.10.9"
ureq = { version = "=3.3.0", default-features = false, features = ["rustls"] }
url = "=2.5.8"
zeroize = "=1.9.1"
