[package]
name = "mixed_ds"
version = "0.1.0"
edition = "2021"
publish = false

[dependencies]
min-max-heap = "1.3"
tokio = { version = "1", default-features = false, features = ["net", "io-util", "time"] }
