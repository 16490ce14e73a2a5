[package]
name = "bentoml"
version = "0.4.0"
edition = "2021"
publish = false

[dependencies]
async-trait = "=0.1.92"
bytes = "=1.12.1"
futures-core = "=0.3.34"
http = "=1.5.0"
jiff = { version = "=0.2.39", features = ["serde"] }
reqwest = { version = "=0.12.28", default-features = false, features = ["json", "multipart", "stream"] }
reqwest-middleware = { version = "=0.4.2", features = ["json", "multipart"] }
reqwest-retry = "=0.7.0"
serde = { version = "=1.0.229", features = ["derive"] }
serde_json = "=1.0.154"
thiserror = "=2.0.21"
tokio = { version = "=1.54.1", features = ["time"] }
url = "=2.5.8"
