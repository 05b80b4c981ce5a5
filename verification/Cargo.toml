[package]
name = "nucleus"
version = "0.1.0"
edition = "2021"
publish = false

[dependencies]
uuid = { version = "*", features = ["v4"] }
tokio = { version = "*", features = ["fs", "io-util", "macros", "net", "process", "rt-multi-thread", "time"] }
async-std = "*"
reqwest = { version = "*", default-features = false }
libarchive = "*"
log = "*"
anyhow = "*"
futures = "*"
sha2 = "*"
generic-array = "*"
pin-project-lite = "*"
async-trait = "*"
