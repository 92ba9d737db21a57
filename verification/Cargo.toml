[package]
name = "unikraft_sandbox"
version = "0.1.0"
edition = "2021"
publish = false

[dependencies]
anyhow = "=1.0.104"
bytes = "=1.12.1"
http = "=1.5.0"
http-body-util = "=0.1.5"
hyper = { version = "=1.12.0", features = ["client", "http1"] }
hyperlight-unikraft = { version = "=0.11.0", default-features = false }
pyo3 = "=0.30.1"
serde = { version = "=1.0.229", features = ["derive"] }
serde_json = "=1.0.154"
tokio = { version = "=1.54.1", features = ["rt-multi-thread", "time"] }
url = "=2.5.8"
wasmtime-wasi-http = "=44.0.3"
