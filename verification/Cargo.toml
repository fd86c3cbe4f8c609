[package]
name = "fluid_audio"
version = "0.1.0"
edition = "2021"
publish = false

[dependencies]
napi = { version = "2", features = ["async"] }
napi-derive = "2"
swift-rs = "1"
tokio = { version = "1", features = ["sync"] }
