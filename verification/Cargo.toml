[package]
name = "vortex_core"
version = "0.1.0"
edition = "2021"
publish = false

[dependencies]
bytes = "1"
fsst-rs = "*"
futures = "0.3"
num-traits = "0.2"
object_store = "*"
tokio = { version = "1", features = ["rt", "sync"] }
tracing = "0.1"

[dependencies.cudarc]
version = "*"
default-features = false
features = ["std", "driver", "dynamic-loading", "cuda-12080"]
