[package]
name = "wasm_operator"
version = "0.1.0"
edition = "2021"
publish = false

[dependencies]
anyhow = "1"
bincode = "=1.3.3"
blake3 = "=1.8.7"
chrono = { version = "=0.4.45", features = ["serde"] }
dashmap = "=6.2.1"
futures = "0.3"
k8s-openapi = { version = "=0.27.1", features = ["latest"] }
kube = { version = "=3.1.0", default-features = false, features = ["client", "rustls-tls", "ring", "runtime", "derive", "jsonpatch"] }
memmap2 = "0.9"
reqwest = { version = "0.12", default-features = false, features = ["json"] }
schemars = { version = "1", features = ["chrono04"] }
send_wrapper = "0.6"
serde = { version = "1", features = ["derive"] }
serde_json = "=1.0.154"
serde_yaml = "0.9"
target-lexicon = "=0.13.5"
thiserror = "2"
tokio = { version = "1", features = ["full"] }
tokio-stream = "0.1"
tokio-util = { version = "0.7", features = ["rt"] }
tracing = "0.1"
tracing-subscriber = { version = "0.3", features = ["env-filter"] }
uuid = { version = "=1.29.0", features = ["v4"] }
wasmtime = { version = "=43.0.2", default-features = false, features = ["runtime", "cranelift", "component-model", "std"] }
wasmtime-wasi = { version = "=43.0.2", default-features = false, features = ["p2"] }
wasip2 = "1"
