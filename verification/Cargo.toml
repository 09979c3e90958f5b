[package]
name = "raft"
version = "0.1.0"
edition = "2021"
publish = false

[dependencies]
async-trait = "0.1"
futures = "0.3"
rand = "0.9"
tokio = { version = "1", features = ["rt-multi-thread", "sync", "time", "macros"] }
