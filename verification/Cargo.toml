[package]
name = "rafthttp"
version = "0.1.0"
edition = "2021"
publish = false

[dependencies]
url = "2"
crc = "3"
semver = "1"
rustls = "0.21"
chrono = "0.4"
hyper = { version = "0.14", features = ["full"] }
hyper-rustls = { version = "0.24", features = ["http2"] }
tokio = { version = "1", features = ["full"] }
tokio-rustls = "0.24"
rustls-pemfile = "1"
openssl = "0.10"
nix = "0.26"
num-bigint = "0.4"
rand = "0.8"
serde = { version = "1", features = ["derive"] }
serde_json = "1"
async-channel = "1"
thiserror = "1"
pem = "3"
