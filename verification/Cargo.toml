[package]
name = "signing-secp256k1"
version = "0.1.0"
edition = "2021"
publish = false

[dependencies]
k256 = { version = "0.13", features = ["ecdsa", "sha256"] }
sha3 = "0.10"
signature = "2"
rand = "0.8"
serde = { version = "1", features = ["derive"] }
serde_json = "1"
thiserror = "1"
clap = { version = "4", features = ["derive"] }
color-eyre = "0.6"
tokio = { version = "1", features = ["rt", "macros", "time"] }
tracing = "0.1"
