[package]
name = "betterstack_shipper"
version = "0.1.0"
edition = "2021"
publish = false

[dependencies]
tokio = { version = "*", default-features = false, features = ["sync", "rt", "time", "macros"] }
reqwest = { version = "*", default-features = false }
tracing = "*"
tracing-subscriber = { version = "*", features = ["registry"] }

[dev-dependencies]
serde_json = "*"
