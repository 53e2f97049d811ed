[package]
name = "backdrop"
version = "0.1.0"
edition = "2021"
publish = false

[dependencies]
actix-multipart = "*"
actix-web = "*"
anyhow = "*"
config = "*"
futures-util = "*"
mime = "*"
mobc = "*"
mobc-redis = "*"
sanitize-filename = "*"
secrecy = { version = "*", features = ["serde"] }
serde = { version = "*", features = ["derive"] }
serde-aux = "*"
serde_json = "*"
tera = "*"
thiserror = "*"
tokio = { version = "*", features = ["macros", "rt-multi-thread", "fs", "io-util", "time"] }
tracing = "*"
uuid = { version = "*", features = ["v4"] }
