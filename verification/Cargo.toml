[package]
name = "mc_honeypot"
version = "0.1.0"
edition = "2021"
publish = false

[dependencies]
base64 = "*"
clap = { version = "*", features = ["derive"] }
reqwest = { version = "*", default-features = false, features = ["json"] }
serde_json = "*"
tokio = { version = "*", features = ["fs", "io-util", "macros", "net", "rt-multi-thread"] }
uuid = { version = "*", features = ["v3"] }
