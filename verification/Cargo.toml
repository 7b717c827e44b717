[package]
name = "dsh_studio"
version = "0.9.4"
edition = "2021"
publish = false

[dependencies]
dirs = "6"
flate2 = "1"
getrandom = "0.3"
semver = "1"
serde = { version = "1", features = ["derive"] }
serde_json = "1"
tar = "0.4"
tokio = { version = "1", features = ["io-util", "macros", "process", "rt-multi-thread", "sync", "time"] }
url = "2"
