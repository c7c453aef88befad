[package]
name = "encrypted_search"
version = "0.1.0"
edition = "2021"
publish = false

[dependencies]
sled = "=0.34.7"
secrecy = "0.8"
uuid = { version = "=1.29.0", features = ["v4"] }
futures = "0.3"
futures-channel = "0.3"
tokio = { version = "1", features = ["rt-multi-thread", "sync", "time"] }
dioxus = { version = "0.2", features = ["desktop"] }
