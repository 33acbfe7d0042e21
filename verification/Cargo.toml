[package]
name = "signet_sdk"
version = "0.1.0"
edition = "2021"
publish = false

[dependencies]
alloy = { version = "=1.8.3", default-features = false, features = ["rlp"] }
chrono = "=0.4.45"
futures-util = "=0.3.34"
serde = { version = "=1.0.229", features = ["derive"] }
thiserror = "=2.0.21"
