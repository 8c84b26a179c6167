[package]
name = "gossip_node"
version = "0.1.0"
edition = "2021"
publish = false

[dependencies]
maelstrom_rs = "*"
rand = "0.8"
serde_json = "1"
uuid = { version = "1", features = ["v4"] }
