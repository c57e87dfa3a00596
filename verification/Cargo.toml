[package]
name = "metadata_bench"
version = "0.1.0"
edition = "2021"
publish = false

[dependencies]
arrow = { version = "56", default-features = false }
bytes = "1"
comfy-table = { version = "7", default-features = false }
parquet = { version = "56", default-features = false, features = ["arrow"] }
rand = "0.9"
tempfile = "3"
tokio = { version = "1", features = ["rt-multi-thread", "macros", "sync"] }
