[package]
name = "bitbar_composite_plugin"
version = "0.1.0"
edition = "2021"
publish = false

[dependencies]
tokio = { version = "*", features = ["process", "rt-multi-thread", "macros"] }
futures = "*"
serde = { version = "*", features = ["derive"] }
serde_yaml = "*"
