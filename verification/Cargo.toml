[package]
name = "fastpass"
version = "0.1.0"
edition = "2021"
publish = false

[dependencies]
flume = "0.12"
thiserror = "2"
tokio = { version = "1", features = ["macros", "rt", "rt-multi-thread", "sync", "time"] }

[dev-dependencies]
loom = "0.7"
