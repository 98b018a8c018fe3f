[package]
name = "prometric"
version = "0.1.0"
edition = "2021"
publish = false

[dependencies]
arc-swap = "=1.9.3"
orx-concurrent-vec = "=4.1.0"
parking_lot = "=0.12.5"
metrics-util = "=0.20.4"
metrics-exporter-prometheus = { version = "=0.18.3", default-features = false }
quanta = "=0.12.6"
prometheus = "=0.14.0"
hyper = { version = "=1.12.0", features = ["server", "http1"] }
hyper-util = { version = "=0.1.21", features = ["tokio"] }
tokio = { version = "=1.54.1", features = ["rt", "net", "time", "macros"] }
sysinfo = "=0.39.6"
syn = { version = "=2.0.119", features = ["full"] }
quote = "=1.0.47"
proc-macro2 = "=1.0.107"
darling = "=0.21.3"
