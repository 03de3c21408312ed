[package]
name = "block_export"
version = "0.1.0"
edition = "2021"
publish = false

[dependencies]
alloy-primitives = { version = "0.7", default-features = false, features = ["std"] }
alloy-rlp = "0.3"
clap = { version = "4", default-features = false, features = ["std", "derive", "help", "usage", "error-context"] }
ethers-core = "2"
ethers-providers = { version = "2", default-features = false }
eyre = "0.6"
futures = "0.3"
thiserror = "1"
tokio = { version = "1", features = ["rt-multi-thread", "macros", "fs", "sync", "io-util"] }
tokio-util = { version = "0.7", features = ["codec"] }
