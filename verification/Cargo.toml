[package]
name = "graph"
version = "0.1.0"
edition = "2021"
publish = false

[dependencies]
alloy = { version = "*", default-features = false, features = ["dyn-abi", "json-abi"] }
anyhow = "1"
hex = "0.4"
web3 = { version = "*", default-features = false }
