[package]
name = "wscall"
version = "0.6.0"
edition = "2021"
publish = false

[dependencies]
aes-gcm = "0.10"
bytes = "1"
chacha20poly1305 = "0.10"
dashmap = "6"
futures-util = "0.3"
getrandom = "0.2"
regex = "1"
serde = { version = "1", features = ["derive"] }
serde_json = { version = "1", features = ["preserve_order"] }
sha2 = "0.10"
thiserror = "2"
tokio = { version = "1", features = ["full"] }
tokio-tungstenite = "*"
tracing = "0.1"
uuid = { version = "1", features = ["v7"] }
validator = { version = "*", features = ["derive"] }
x25519-dalek = { version = "2", features = ["static_secrets"] }
