[package]
name = "scriptor"
version = "0.1.0"
edition = "2021"
publish = false

[dependencies]
anyhow = "=1.0.104"
futures-core = "=0.3.34"
futures-lite = "=1.13.0"
log = "=0.4.34"
relative-path = "=1.9.3"
reqwest = { version = "=0.11.27", default-features = false }
rquickjs = { version = "=0.1.7", features = ["loader", "futures", "tokio", "classes", "properties", "array-buffer", "registery", "macro"] }
tokio = { version = "=1.54.1", features = ["rt", "sync", "macros", "fs", "time", "io-util", "io-std"] }
tokio-stream = { version = "=0.1.19", features = ["io-util", "fs"] }
wasmtime = "36"
wasmtime-wasi = "36"
