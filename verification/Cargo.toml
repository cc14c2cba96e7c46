[package]
name = "tvm_serve"
version = "0.26.0"
edition = "2021"
publish = false

[dependencies]
anyhow = "1"
axum = "0.7"
prost = "0.13"
serde = { version = "1", features = ["derive"] }
serde_json = "1"
tokio = { version = "1", features = ["macros", "net", "rt-multi-thread", "signal", "sync"] }
tonic = "0.12"
tvm-ffi = "*"
