[package]
name = "reactive_messaging"
version = "0.1.0"
edition = "2021"
publish = false

[dependencies]
tokio = { version = "1", features = ["net", "io-util", "sync", "time", "macros", "rt", "rt-multi-thread"] }
futures = "0.3"
keen-retry = "*"
log = "0.4"
reactive-mutiny = "*"
async-trait = "0.1"
