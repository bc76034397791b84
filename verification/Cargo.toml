[package]
name = "genarea"
version = "0.1.0"
edition = "2021"
publish = false

[dependencies]
async-ringbuf = "0.1"
async-trait = "0.1"
tokio = { version = "1", features = ["macros", "rt-multi-thread", "io-util"] }
tokio-util = { version = "0.7", features = ["compat"] }
uuid = { version = "1", features = ["v4"] }
