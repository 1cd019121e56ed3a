[package]
name = "axon"
version = "0.1.0"
edition = "2021"
publish = false

[dependencies]
arrayvec = "0.7"
async-stream = "0.3"
async-trait = "0.1"
anyhow = "1"
clap = { version = "4", features = ["derive"] }
deadpool-redis = "0.22"
futures-util = "0.3"
ndarray = "0.17"
ort = { version = "2.0.0-rc.10", default-features = false, features = ["load-dynamic", "ndarray", "std", "coreml", "cuda", "tensorrt"] }
parking_lot = "0.12"
pipexec = "0.3"
prometheus = { version = "0.13", default-features = false }
prost = "0.13"
rdkafka = { version = "*", default-features = false, features = ["tokio", "libz"] }
reqwest = { version = "0.12", default-features = false, features = ["json", "stream"] }
rmp-serde = "1"
serde = { version = "1", features = ["derive"] }
serde_json = "1"
serde_yaml_ng = "0.10"
thiserror = "2"
tokio = { version = "1", features = ["full"] }
tokio-stream = "0.1"
toml = "0.9"
tonic = "0.12"
tonic-health = "0.12"
tower = { version = "0.5", features = ["timeout"] }
tracing = "0.1"
tracing-subscriber = { version = "0.3", features = ["json", "env-filter"] }
