[package]
name = "upload_bridge"
version = "0.1.0"
edition = "2021"
publish = false

[dependencies]
futures = "0.1"
hyper = "0.12"
tokio = "0.1"
