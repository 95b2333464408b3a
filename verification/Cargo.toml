[package]
name = "ts_runtime"
version = "0.1.0"
edition = "2021"
publish = false

[dependencies]
bytes = "1"
kameo = "*"
kameo_actors = "*"
rand = "0.9"
smol_str = "0.3"
tokio = { version = "1", features = ["rt", "sync", "time"] }
tracing = "0.1"
