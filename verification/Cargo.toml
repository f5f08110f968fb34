[package]
name = "srkos"
version = "0.1.0"
edition = "2021"
publish = false

[dependencies]
embassy-executor = "*"
embassy-sync = "*"
embassy-time = "*"
embedded-hal-async = "*"
heapless = { version = "0.8", features = ["serde"] }
serde = { version = "1", default-features = false, features = ["derive"] }
serde-json-core = "*"

[dev-dependencies]
critical-section = { version = "1", features = ["std"] }
futures = "0.3"
