[package]
name = "engine_launcher"
version = "0.1.0"
edition = "2021"
publish = false

[dependencies]
alloy-chains = "0.1.32"
alloy-consensus = "=0.4.2"
alloy-primitives = "0.8.7"
alloy-rpc-types = { version = "=0.4.2", default-features = false, features = ["engine"] }
clap = { version = "4", features = ["derive"] }
eyre = "0.6"
futures = "0.3"
tokio = { version = "1", features = ["macros", "rt-multi-thread", "signal", "sync"] }
tokio-stream = "0.1"
tracing = "0.1"
