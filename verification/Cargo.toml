[package]
name = "codex-tamer"
version = "0.3.3"
edition = "2021"
publish = false

[dependencies]
anyhow = "1"
blake3 = "1"
futures-util = "0.3"
libc = "0.2"
serde = { version = "1", features = ["derive"] }
serde_json = "1"
tokio = { version = "1", features = ["macros", "net", "rt-multi-thread", "signal", "time"] }
tokio-tungstenite = { version = "*", features = ["native-tls"] }
