[package]
name = "papery"
version = "0.1.0"
edition = "2021"
publish = false

[dependencies]
sha2 = "0.10"
rand = "0.9"
serde = { version = "1", features = ["derive"] }
serde_json = "1"
tokio = { version = "1", features = ["rt-multi-thread", "macros", "time", "sync", "fs", "io-util"] }
reqwest = { version = "0.12", default-features = false, features = ["json", "rustls-tls"] }
image = { version = "0.25", default-features = false, features = ["jpeg", "png", "webp", "bmp"] }
directories = "6"
libc = "0.2"
ksni = "0.3"
tracing = "0.1"
tracing-subscriber = "0.3"
tracing-log = "0.2"
