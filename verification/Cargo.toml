[package]
name = "rustx"
version = "0.1.0"
edition = "2021"
publish = false

[dependencies]
serde = { version = "1", features = ["derive"] }
serde_json = "1"
bson = "2"
rmp-serde = "1"
prost = "0.13"
chrono = "0.4"
colored = "2"
flate2 = "1"
redis = { version = "0.27", features = ["tokio-comp"] }
tokio = { version = "1", features = ["rt-multi-thread", "macros", "sync", "fs", "io-util", "time"] }
async-trait = "0.1"
anyhow = "1"
thiserror = "1"
arc-swap = "1"
once_cell = "1"
