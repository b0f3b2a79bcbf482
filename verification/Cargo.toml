[package]
name = "dict_lookup"
version = "0.1.0"
edition = "2021"
publish = false

[dependencies]
serde_json = "1"
regex = "1"
unicode-segmentation = "1"
reqwest = { version = "*", default-features = false }
tokio = { version = "1", features = ["rt", "macros"] }
