[package]
name = "ckb_node_core"
version = "0.1.0"
edition = "2021"
publish = false

[dependencies]
blake2b-ref = "*"
byteorder = "=1.5.0"
lru-cache = "=0.1.2"
rayon = "=1.12.0"
serde = { version = "=1.0.229", features = ["derive"] }
numext-fixed-hash = "=0.1.6"
tempfile = "=3.27.0"
rand = "=0.10.3"

[dev-dependencies]
serde_json = "=1.0.154"
