[package]
name = "yggdrasil_client"
version = "0.1.0"
edition = "2021"
publish = false

[dependencies]
curl = "0.4"
futures = "0.1"
tokio-core = "0.1"
tokio-curl = "0.1"
