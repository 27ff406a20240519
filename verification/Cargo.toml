[package]
name = "croc_sidecar"
version = "0.1.0"
edition = "2021"
publish = false

[dependencies]
tokio = { version = "1", features = ["process", "io-util"] }
futures-util = { version = "0.3", default-features = false, features = ["std"] }
thiserror = "2"
