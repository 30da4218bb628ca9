[package]
name = "chat_relay"
version = "0.1.0"
edition = "2021"
publish = false

[dependencies]
futures-util = "*"
openai-api-rs = "*"
reqwest = { version = "*", default-features = false, features = ["json", "rustls-tls"] }
tokio = { version = "*", features = ["macros", "rt-multi-thread"] }
warp = { version = "*", features = ["tls"] }
