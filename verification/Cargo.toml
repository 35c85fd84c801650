[package]
name = "chunkstore"
version = "0.1.0"
edition = "2021"
publish = false

[dependencies]
blake3 = { version = "1", features = ["pure"] }
crossbeam = "0.8"
hex = "0.4"
once_cell = "1"
parking_lot = "0.11"
rand = "0.8"
thiserror = "1"
tokio = "1"
