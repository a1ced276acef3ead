[package]
name = "gateway_mux"
version = "0.1.0"
edition = "2021"
publish = false

[dependencies]
flate2 = "1"
futures-util = "0.3"
halfbrown = "*"
hyper = { version = "0.14", features = ["server", "http1", "tcp"] }
log = "0.4"
metrics-exporter-prometheus = "*"
serde = { version = "1", features = ["derive"] }
simd-json = "*"
tokio = { version = "1", features = ["rt-multi-thread", "macros", "sync", "net", "time", "io-util"] }
tokio-tungstenite = "0.21"
