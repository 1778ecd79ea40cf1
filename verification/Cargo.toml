[package]
name = "hotswap_config"
version = "0.1.0"
edition = "2021"
publish = false

[dependencies]
arc-swap = "*"
chrono = "*"
config = "*"
fastrand = "*"
reqwest = { version = "*", default-features = false, features = ["json"] }
serde = { version = "*", features = ["derive"] }
serde_json = "*"
tokio = { version = "*", features = ["macros", "rt-multi-thread", "sync", "time"] }
