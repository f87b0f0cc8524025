[package]
name = "qpwgraph"
version = "0.1.0"
edition = "2021"
publish = false

[dependencies]
serde_json = "=1.0.154"
pipewire = "=0.8.0"
ashpd = { version = "=0.11.1", default-features = false, features = ["async-std"] }
async-io = "=2.6.0"
futures-util = "=0.3.34"
pollster = "=1.0.1"
