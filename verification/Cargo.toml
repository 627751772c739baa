[package]
name = "rpcnet"
version = "0.1.0"
edition = "2021"
publish = false

[dependencies]
tokio = { version = "1", features = ["full"] }
async-trait = "0.1"
async-channel = "1"
thiserror = "1"
hyper = { version = "0.14", features = ["server", "http1", "tcp", "runtime"] }
