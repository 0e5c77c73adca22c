[package]
name = "bdk_compat"
version = "0.1.0"
edition = "2021"
publish = false

[dependencies]
bitcoin = { version = "*", features = ["serde"] }
miniscript = "*"
bitcoincore-rpc = "*"
electrum-client = { version = "*", default-features = false }
electrsd = { version = "*", default-features = false }
serde = { version = "1", features = ["derive"] }
anyhow = "1"
