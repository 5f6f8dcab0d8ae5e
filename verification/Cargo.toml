[package]
name = "yapi_ts"
version = "0.1.0"
edition = "2021"
publish = false

[dependencies]
serde_json = { version = "1", features = ["preserve_order"] }
serde = { version = "1", features = ["derive"] }
tokio = { version = "1", features = ["rt-multi-thread", "sync", "time", "macros"] }
reqwest = { version = "0.11", default-features = false, features = ["json"] }
chrono = { version = "0.4", default-features = false, features = ["clock"] }
