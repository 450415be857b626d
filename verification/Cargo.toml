[package]
name = "gossip_ids"
version = "0.1.0"
edition = "2021"
publish = false

[dependencies]
async-trait = "*"
color-eyre = "*"
log = "*"
maelstrom-node = "*"
serde = { version = "*", features = ["derive"] }
serde_json = "*"
tokio-context = "*"
