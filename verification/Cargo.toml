[package]
name = "phoenix_protocol"
version = "0.1.0"
edition = "2021"
publish = false

[dependencies]
threshold_crypto = "0.4"
rand = "0.7"
bincode = "1"
base64 = "0.13"
hex = "0.4"
uuid = { version = "1", features = ["v4"] }
chrono = "0.4"
serde = { version = "1", features = ["derive"] }
serde_json = "1"
anyhow = "1"
tracing = "0.1"
tracing-subscriber = "0.3"
clap = { version = "4", default-features = false, features = ["std", "derive", "help", "usage", "error-context"] }
tokio = { version = "1", features = ["rt-multi-thread", "macros", "io-std", "io-util", "time"] }
reqwest = { version = "0.12", default-features = false, features = ["json"] }
libp2p = { version = "0.53", features = ["gossipsub", "mdns", "noise", "tcp", "yamux", "tokio", "macros"] }
