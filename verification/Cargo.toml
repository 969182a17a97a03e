[package]
name = "dephy_node"
version = "0.1.0"
edition = "2021"
publish = false

[dependencies]
sha3 = "0.10"
k256 = "0.13"

[dev-dependencies]
hex = "0.4"
