[package]
name = "stratum_core"
version = "0.1.0"
edition = "2021"
publish = false

[dependencies]
clap = "*"
futures = "*"
stream-cancel = "*"
tokio = { version = "*", features = ["io-util", "macros", "net", "rt-multi-thread", "signal", "sync", "time"] }

[dev-dependencies]
serde_json = "*"
