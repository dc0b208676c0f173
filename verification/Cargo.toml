[package]
name = "lunatic_runtime"
version = "0.1.0"
edition = "2021"
publish = false

[dependencies]
anyhow = "=1.0.104"
lazy_static = "=1.5.1"
log = "=0.4.34"
smol = "=2.0.2"
tokio = { version = "=1.54.1", default-features = false, features = ["sync"] }
wasmtime = { version = "=36.0.19", default-features = false, features = ["runtime", "std"] }
