[package]
name = "tradeterm"
version = "0.1.0"
edition = "2021"
publish = false

[dependencies]
serde = { version = "1", features = ["derive"] }
serde_json = "1"
reqwest = "0.12"
tokio = { version = "1", features = ["macros", "rt-multi-thread"] }
tungstenite = { version = "*", features = ["native-tls"] }
