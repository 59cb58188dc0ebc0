[package]
name = "flip_flop"
version = "0.1.0"
edition = "2021"
publish = false

[dependencies]
circular-queue = "*"
serde = { version = "1", features = ["derive"] }
postcard = "1"
tokio = { version = "1", features = ["rt-multi-thread", "macros", "net", "sync", "time"] }
rand = "0.8"

[dev-dependencies]
aes = "0.7"
ccm = "0.4"
heapless = "0.7"
