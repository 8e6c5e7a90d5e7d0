[package]
name = "wispmq-cli"
version = "0.1.0"
edition = "2021"
publish = false

[dependencies]
clap = { version = "=4.6.7", features = ["derive"] }
futures-util = "=0.3.34"
rustls-native-certs = "=0.8.5"
rustls-pemfile = "=2.2.0"
rustls-pki-types = "=1.15.1"
serde_json = { version = "=1.0.154", features = ["float_roundtrip"] }
tokio = { version = "=1.54.1", features = ["rt", "rt-multi-thread", "macros", "net", "io-util", "time", "sync", "signal"] }
tokio-rustls = { version = "=0.26.6", default-features = false, features = ["ring", "tls12", "logging"] }
tokio-tungstenite = { version = "=0.24.0", default-features = false, features = ["handshake"] }
wispmq-protocol = "=0.1.0"
