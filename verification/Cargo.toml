[package]
name = "rpc_relay"
version = "0.1.0"
edition = "2021"
publish = false

[dependencies]
bitcoin-private = "0.1"
bitcoincore-rpc = "0.17"
bitcoincore-rpc-json = "0.17"
reqwest = { version = "0.11", default-features = false, features = ["json"] }
serde = { version = "1", features = ["derive"] }
serde_json = "1"
thiserror = "1"
url = "2"
