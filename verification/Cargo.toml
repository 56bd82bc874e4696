[package]
name = "assetvault"
version = "0.1.0"
edition = "2021"
publish = false

[dependencies]
assetpack-core = "*"
memory-indexer = "*"
napi = "*"
napi-derive = "*"
rusqlite = { version = "*", features = ["bundled"] }
serde = { version = "1", features = ["derive"] }
serde_json = "1"

[dev-dependencies]
tempfile = "3"
