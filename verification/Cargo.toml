[package]
name = "ai_coder_interface_rs"
version = "0.1.0"
edition = "2021"
publish = false

[dependencies]
uuid = { version = "1", features = ["v4"] }
tokio = { version = "1", features = ["sync", "rt-multi-thread", "time", "macros", "io-util", "io-std"] }
shell-words = "1"
chrono = "0.4"
serde = { version = "1", features = ["derive"] }
serde_yaml = "0.9"
dirs = "5"
ctrlc = "3"
