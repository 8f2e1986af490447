[package]
name = "echors"
version = "0.1.0"
edition = "2021"
publish = false

[dependencies]
dashmap = "5"
fasthash = "0.4"
string-builder = "0.2"
parking_lot = "0.12"
tokio = { version = "1", features = ["rt-multi-thread", "macros", "net", "io-util", "time"] }
log = "0.4"
log4rs = "1"
config-file = "0.2"
serde = { version = "1", features = ["derive"] }

[dev-dependencies]
uuid = { version = "1", features = ["v4"] }
