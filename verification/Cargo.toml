[package]
name = "image_registry"
version = "0.1.0"
edition = "2021"
publish = false

[dependencies]
serde = "1"
serde_json = "1"
sha2 = "0.10"
p384 = "0.13"
sec1 = "0.7"
spki = "0.7"
rand_core = "0.6"
tokio = { version = "1", features = ["full"] }
axum = "0.7"
tower = "*"
tower-http = { version = "*", features = ["trace"] }
reqwest = { version = "0.12", default-features = false, features = ["rustls-tls", "blocking", "stream"] }
rustls = "0.23"
rustls-pemfile = "2"
tokio-rustls = "0.26"
tokio-tar = "0.3"
tokio-util = { version = "0.7", features = ["io"] }
tokio-stream = "0.1"
async-compression = { version = "0.4", features = ["tokio", "gzip", "zstd"] }
tar = "0.4"
clap = { version = "4", features = ["derive"] }
env_logger = "0.11"
log = "0.4"
futures-util = "0.3"
