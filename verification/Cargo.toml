[package]
name = "connectrpc_workers"
version = "0.2.0"
edition = "2021"
publish = false

[dependencies]
http = "1"
connectrpc = "0.4"
worker = { version = "0.8", features = ["http"] }
