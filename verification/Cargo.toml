[package]
name = "zero2prod"
version = "0.1.0"
edition = "2021"
publish = false

[dependencies]
actix-web = "*"
actix-web-flash-messages = "*"
anyhow = "*"
hmac = "=0.13.0"
rand = "=0.10.3"
reqwest = { version = "*", features = ["json"] }
secrecy = "*"
serde = { version = "*", features = ["derive"] }
sha2 = "=0.11.0"
thiserror = "*"
tokio = { version = "*", features = ["macros", "rt-multi-thread"] }
tracing = "*"
urlencoding = "=2.1.3"
uuid = { version = "*", features = ["v4"] }
validator = "=0.21.0"
