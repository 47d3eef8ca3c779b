[package]
name = "pushkind_crawlers"
version = "0.1.0"
edition = "2021"
publish = false

[dependencies]
scraper = "=0.29.0"
url = "=2.5.8"
html-escape = "=0.2.15"
serde = { version = "=1.0.229", features = ["derive"] }
serde_json = "=1.0.154"
log = "=0.4.34"
env_logger = "=0.11.11"
dotenvy = "=0.15.7"
tokio = { version = "=1.54.1", features = ["rt-multi-thread", "macros", "sync"] }
reqwest = "=0.13.5"
futures = "=0.3.34"
async-trait = "=0.1.92"
diesel = { version = "=2.3.14", features = ["sqlite", "r2d2", "chrono"] }
chrono = "=0.4.45"
bytemuck = "=1.25.2"
usearch = "=2.26.6"
fastembed = { version = "=7.5.0", default-features = false, features = ["onnx", "hf-hub"] }
zmq = "=0.10.0"
