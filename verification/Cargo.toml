[package]
name = "zink"
version = "0.1.0"
edition = "2021"
publish = false

[dependencies]
serde_json = "=0.9.10"
rs-jsonpath = "=0.1.0"
clap = "=2.34.0"
hyper = "=0.10.16"
bytes = "=0.4.12"
futures = "=0.1.31"
tokio-io = "=0.1.13"
tokio-proto = "=0.1.1"
tokio-service = "=0.1.0"

[dev-dependencies]
mqtt-protocol = "=0.12.0"
